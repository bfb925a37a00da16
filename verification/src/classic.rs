//! The classic two-player game on a fixed 6x7 board, as the terminal program
//! plays it: dropping pieces, detecting four in a row through the last
//! piece, and reading column numbers from the keyboard.

use vstd::prelude::*;

verus! {

/// Number of rows of the classic board.
pub const ROWS: usize = 6;
/// Number of columns of the classic board.
pub const COLS: usize = 7;
/// Number of pieces in a line that win.
pub const WIN_LENGTH: usize = 4;

/// A cell of the classic board.
#[derive(Clone, Copy, PartialEq, Eq, Debug, Structural)]
pub enum Cell {
    Empty,
    Player1,
    Player2,
}

impl Cell {
    /// The symbol drawn for the cell.
    pub fn symbol(&self) -> (r: &'static str)
        ensures
            r@ == (if *self == Cell::Empty { " "@ } else { "●"@ }),
    {
        match self {
            Cell::Empty => " ",
            Cell::Player1 => "●",
            Cell::Player2 => "●",
        }
    }
}

/// A key the game reacts to.
#[derive(Clone, Copy, PartialEq, Eq, Debug, Structural)]
pub enum Key {
    /// A character key.
    Char(char),
    /// The Enter key.
    Enter,
    /// The Escape key.
    Esc,
    /// Any other key.
    Other,
}

/// The game: board (row 0 at the top), whose turn it is, the outcome, and
/// the column number being typed.
pub struct Game {
    pub board: [[Cell; COLS]; ROWS],
    pub current_player: Cell,
    pub game_over: bool,
    pub winner: Option<Cell>,
    pub input_buffer: String,
}

/// The cell at row `r`, column `c`.
pub open spec fn cell_at(b: [[Cell; COLS]; ROWS], r: int, c: int) -> Cell {
    b[r][c]
}

/// A position on the board.
pub open spec fn on_board(r: int, c: int) -> bool {
    0 <= r < ROWS && 0 <= c < COLS
}

/// How many steps a walk from (`r`, `c`) along (`dr`, `dc`) can still take
/// before it leaves the board.
pub open spec fn steps_left(r: int, c: int, dr: int, dc: int) -> int {
    (if dr > 0 { ROWS - r } else if dr < 0 { r + 1 } else { 0 }) + (if dc > 0 {
        COLS - c
    } else if dc < 0 {
        c + 1
    } else {
        0
    })
}

/// A unit step in one of the eight directions.
pub open spec fn unit_step(dr: int, dc: int) -> bool {
    -1 <= dr <= 1 && -1 <= dc <= 1 && (dr != 0 || dc != 0)
}

/// The number of cells equal to `p` met one after another when walking from
/// (`r`, `c`), not counting it, by steps of (`dr`, `dc`) while on the board.
pub open spec fn run(b: [[Cell; COLS]; ROWS], r: int, c: int, dr: int, dc: int, p: Cell) -> nat
    decreases steps_left(r, c, dr, dc),
    when unit_step(dr, dc) && on_board(r, c)
{
    if on_board(r + dr, c + dc) && cell_at(b, r + dr, c + dc) == p {
        1 + run(b, r + dr, c + dc, dr, dc, p)
    } else {
        0
    }
}

/// The length of the line through (`r`, `c`) along (`dr`, `dc`) and back:
/// the cell itself and the equal cells on both sides.
pub open spec fn line_length(b: [[Cell; COLS]; ROWS], r: int, c: int, dr: int, dc: int) -> int {
    1 + run(b, r, c, dr, dc, cell_at(b, r, c)) as int + run(b, r, c, -dr, -dc, cell_at(b, r, c)) as int
}

/// Some line through (`r`, `c`) (horizontal, vertical or diagonal) has at
/// least four equal cells.
pub open spec fn wins_at(b: [[Cell; COLS]; ROWS], r: int, c: int) -> bool {
    ||| line_length(b, r, c, 0, 1) >= WIN_LENGTH
    ||| line_length(b, r, c, 1, 0) >= WIN_LENGTH
    ||| line_length(b, r, c, 1, 1) >= WIN_LENGTH
    ||| line_length(b, r, c, -1, 1) >= WIN_LENGTH
}

/// The row where a piece dropped into `col` lands: the bottommost empty one
/// among the first `n` rows.
pub open spec fn landing_row(b: [[Cell; COLS]; ROWS], col: int, n: int) -> Option<int>
    decreases n,
{
    if n <= 0 {
        None
    } else if cell_at(b, n - 1, col) == Cell::Empty {
        Some(n - 1)
    } else {
        landing_row(b, col, n - 1)
    }
}

/// Every cell of the top row is occupied.
pub open spec fn top_full(b: [[Cell; COLS]; ROWS]) -> bool {
    forall|c: int| 0 <= c < COLS ==> #[trigger] cell_at(b, 0, c) != Cell::Empty
}

/// The other player.
pub open spec fn other(p: Cell) -> Cell {
    if p == Cell::Player1 { Cell::Player2 } else { Cell::Player1 }
}

/// `after` is `before` with `p` placed at (`r`, `c`).
pub open spec fn placed(before: [[Cell; COLS]; ROWS], after: [[Cell; COLS]; ROWS], r: int, c: int, p: Cell) -> bool {
    forall|i: int, j: int| on_board(i, j) ==> #[trigger] cell_at(after, i, j) == if i == r && j == c {
        p
    } else {
        cell_at(before, i, j)
    }
}

/// Every cell of the board is empty.
pub open spec fn all_empty(b: [[Cell; COLS]; ROWS]) -> bool {
    forall|r: int, c: int| on_board(r, c) ==> #[trigger] cell_at(b, r, c) == Cell::Empty
}

/// The game is not over and column `col` can take a piece.
pub open spec fn open_column(g: Game, col: int) -> bool {
    !g.game_over && 0 <= col < COLS && cell_at(g.board, 0, col) == Cell::Empty
}

/// `after` is `before` once the player to move has dropped a piece into
/// column `col`: the piece lies in the bottommost empty cell, and a line of
/// four ends the game with that player as winner, a full top row ends it in
/// a draw, and otherwise the turn passes.
pub open spec fn move_made(before: Game, after: Game, col: int) -> bool {
    let row = landing_row(before.board, col, ROWS as int).unwrap();
    let b = after.board;
    let p = before.current_player;
    &&& placed(before.board, b, row, col, p)
    &&& if wins_at(b, row, col) {
        after.game_over && after.winner == Some(p) && after.current_player == p
    } else if top_full(b) {
        after.game_over && after.winner is None && after.current_player == p
    } else {
        !after.game_over && after.winner == before.winner && after.current_player == other(p)
    }
}

/// The column a typed digit names.
pub open spec fn digit_column(c: char) -> int {
    c as int - '0' as int
}

/// The typed text is empty or one digit.
pub open spec fn buffer_ok(s: Seq<char>) -> bool {
    s.len() <= 1 && (s.len() == 1 ==> '0' <= s[0] <= '9')
}

/// The text of one digit character.
pub open spec fn digit_text(c: char) -> Seq<char> {
    seq![c]
}

/// `str::parse::<usize>`: the empty text is refused, and a text of one
/// decimal digit gives that digit's value.
#[verifier::external_body]
fn parse_column(s: &str) -> (r: Option<usize>)
    ensures
        s@.len() == 0 ==> r is None,
        s@.len() == 1 && '0' <= s@[0] <= '9' ==> r == Some((s@[0] as usize - '0' as usize) as usize),
{
    s.parse::<usize>().ok()
}

/// The text of a digit character.
fn digit_string(c: char) -> (r: String)
    requires
        '0' <= c <= '9',
    ensures
        r@ == digit_text(c),
{
    let s = if c == '0' {
        "0"
    } else if c == '1' {
        "1"
    } else if c == '2' {
        "2"
    } else if c == '3' {
        "3"
    } else if c == '4' {
        "4"
    } else if c == '5' {
        "5"
    } else if c == '6' {
        "6"
    } else if c == '7' {
        "7"
    } else if c == '8' {
        "8"
    } else {
        "9"
    };
    proof {
        reveal_strlit("0");
        reveal_strlit("1");
        reveal_strlit("2");
        reveal_strlit("3");
        reveal_strlit("4");
        reveal_strlit("5");
        reveal_strlit("6");
        reveal_strlit("7");
        reveal_strlit("8");
        reveal_strlit("9");
    }
    String::from_str(s)
}

impl Game {
    /// A new game: an empty board, player 1 to move, nothing typed.
    pub fn new() -> (r: Self)
        ensures
            all_empty(r.board),
            r.current_player == Cell::Player1,
            !r.game_over,
            r.winner is None,
            r.input_buffer@ == Seq::<char>::empty(),
    {
        let g = Game {
            board: [[Cell::Empty; COLS]; ROWS],
            current_player: Cell::Player1,
            game_over: false,
            winner: None,
            input_buffer: String::new(),
        };
        proof {
            assert forall|r: int, c: int| on_board(r, c) implies #[trigger] cell_at(g.board, r, c) == Cell::Empty by {
                assert(g.board[r][c] == Cell::Empty);
            }
        }
        g
    }

    /// Starts over: an empty board, player 1 to move, nothing typed.
    pub fn reset(&mut self)
        ensures
            all_empty(final(self).board),
            final(self).current_player == Cell::Player1,
            !final(self).game_over,
            final(self).winner is None,
            final(self).input_buffer@ == Seq::<char>::empty(),
    {
        let fresh = Game::new();
        self.board = fresh.board;
        self.current_player = Cell::Player1;
        self.game_over = false;
        self.winner = None;
        self.input_buffer = String::new();
    }

    /// A move into `col` can be made: the column is on the board and its top
    /// cell is empty.
    pub fn is_valid_move(&self, col: usize) -> (r: bool)
        ensures
            r == (col < COLS && cell_at(self.board, 0, col as int) == Cell::Empty),
    {
        col < COLS && self.board[0][col] == Cell::Empty
    }

    /// Drops the current player's piece into `col`. Refused once the game is
    /// over or when the column is off the board or full; otherwise the piece
    /// lands in the bottommost empty row, and the game ends on four in a line
    /// through it or on a full top row, or passes to the other player.
    pub fn make_move(&mut self, col: usize) -> (r: Result<(), String>)
        requires
            old(self).current_player != Cell::Empty,
        ensures
            final(self).current_player != Cell::Empty,
            final(self).input_buffer@ == old(self).input_buffer@,
            old(self).game_over ==> r is Err && r->Err_0@ == "Game is over"@ && final(self).board
                == old(self).board && final(self).current_player == old(self).current_player
                && final(self).game_over == old(self).game_over && final(self).winner == old(self).winner,
            !old(self).game_over && !(col < COLS && cell_at(old(self).board, 0, col as int) == Cell::Empty)
                ==> r is Err && r->Err_0@ == "Invalid move"@ && final(self).board == old(self).board
                && final(self).current_player == old(self).current_player
                && final(self).game_over == old(self).game_over && final(self).winner == old(self).winner,
            open_column(*old(self), col as int) ==> r is Ok && move_made(*old(self), *final(self), col as int),
    {
        if self.game_over {
            return Err(String::from_str("Game is over"));
        }
        if !self.is_valid_move(col) {
            return Err(String::from_str("Invalid move"));
        }
        let ghost b0 = self.board;
        proof {
            lemma_landing_row(b0, col as int, ROWS as int);
        }
        let mut row: usize = ROWS;
        while row > 0
            invariant
                row <= ROWS,
                col < COLS,
                self.board == b0,
                b0 == old(self).board,
                !old(self).game_over,
                self.game_over == old(self).game_over,
                self.winner == old(self).winner,
                self.current_player == old(self).current_player,
                self.current_player != Cell::Empty,
                self.input_buffer@ == old(self).input_buffer@,
                landing_row(b0, col as int, ROWS as int) is Some,
                cell_at(b0, 0, col as int) == Cell::Empty,
                landing_row(b0, col as int, ROWS as int) == landing_row(b0, col as int, row as int),
            decreases row,
        {
            let r = row - 1;
            if self.board[r][col] == Cell::Empty {
                let p = self.current_player;
                let mut line = self.board[r];
                line[col] = p;
                self.board[r] = line;
                proof {
                    assert forall|i: int, j: int| on_board(i, j) implies #[trigger] cell_at(self.board, i, j) == if i
                        == r && j == col {
                        p
                    } else {
                        cell_at(b0, i, j)
                    } by {}
                }
                if self.check_win(r, col) {
                    self.game_over = true;
                    self.winner = Some(p);
                } else if self.is_board_full() {
                    self.game_over = true;
                    self.winner = None;
                } else {
                    self.current_player = if p == Cell::Player1 {
                        Cell::Player2
                    } else {
                        Cell::Player1
                    };
                }
                return Ok(());
            }
            row = r;
        }
        Err(String::from_str("Column is full"))
    }

    /// Counts the cells equal to `p` met one after another when walking from
    /// (`row`, `col`) by steps of (`dr`, `dc`).
    fn count_run(&self, row: i32, col: i32, dr: i32, dc: i32, p: Cell) -> (r: i32)
        requires
            on_board(row as int, col as int),
            unit_step(dr as int, dc as int),
        ensures
            r == run(self.board, row as int, col as int, dr as int, dc as int, p),
            0 <= r <= 6,
    {
        let ghost total = run(self.board, row as int, col as int, dr as int, dc as int, p);
        proof {
            lemma_run_bound(self.board, row as int, col as int, dr as int, dc as int, p);
        }
        let mut count: i32 = 0;
        let mut r: i32 = row + dr;
        let mut c: i32 = col + dc;
        while r >= 0 && r < ROWS as i32 && c >= 0 && c < COLS as i32
            invariant_except_break
                unit_step(dr as int, dc as int),
                on_board((r - dr) as int, (c - dc) as int),
                -1 <= r <= ROWS,
                -1 <= c <= COLS,
                total <= 6,
                count + run(self.board, (r - dr) as int, (c - dc) as int, dr as int, dc as int, p) == total,
                0 <= count <= total,
            ensures
                count == total,
            decreases steps_left(r as int, c as int, dr as int, dc as int) + 8,
        {
            if self.board[r as usize][c as usize] == p {
                count = count + 1;
                r = r + dr;
                c = c + dc;
            } else {
                break;
            }
        }
        count
    }

    /// Checks whether a line through the piece at (`last_row`, `last_col`)
    /// holds four equal pieces.
    fn check_win(&self, last_row: usize, last_col: usize) -> (r: bool)
        requires
            last_row < ROWS,
            last_col < COLS,
        ensures
            r == wins_at(self.board, last_row as int, last_col as int),
    {
        let player = self.board[last_row][last_col];
        let row = last_row as i32;
        let col = last_col as i32;
        let dirs: [(i32, i32); 4] = [(0, 1), (1, 0), (1, 1), (-1, 1)];
        let mut k: usize = 0;
        while k < 4
            invariant
                k <= 4,
                row == last_row,
                col == last_col,
                last_row < ROWS,
                last_col < COLS,
                player == cell_at(self.board, last_row as int, last_col as int),
                dirs@ == seq![(0i32, 1i32), (1i32, 0i32), (1i32, 1i32), (-1i32, 1i32)],
                forall|j: int| 0 <= j < k ==> line_length(
                    self.board,
                    last_row as int,
                    last_col as int,
                    #[trigger] dirs@[j].0 as int,
                    dirs@[j].1 as int,
                ) < WIN_LENGTH,
            decreases 4 - k,
        {
            let (dr, dc) = dirs[k];
            let forward = self.count_run(row, col, dr, dc, player);
            let backward = self.count_run(row, col, -dr, -dc, player);
            let count = 1 + forward + backward;
            if count >= WIN_LENGTH as i32 {
                return true;
            }
            k = k + 1;
        }
        assert(line_length(self.board, last_row as int, last_col as int, dirs@[0].0 as int, dirs@[0].1 as int) < 4);
        assert(line_length(self.board, last_row as int, last_col as int, dirs@[1].0 as int, dirs@[1].1 as int) < 4);
        assert(line_length(self.board, last_row as int, last_col as int, dirs@[2].0 as int, dirs@[2].1 as int) < 4);
        assert(line_length(self.board, last_row as int, last_col as int, dirs@[3].0 as int, dirs@[3].1 as int) < 4);
        false
    }

    /// Checks whether every cell of the top row is occupied.
    fn is_board_full(&self) -> (r: bool)
        ensures
            r == top_full(self.board),
    {
        let mut c: usize = 0;
        while c < COLS
            invariant
                c <= COLS,
                forall|j: int| 0 <= j < c ==> #[trigger] cell_at(self.board, 0, j) != Cell::Empty,
            decreases COLS - c,
        {
            if self.board[0][c] == Cell::Empty {
                assert(cell_at(self.board, 0, c as int) == Cell::Empty);
                return false;
            }
            c = c + 1;
        }
        true
    }

    /// Reacts to a key: a digit becomes the typed column (replacing any
    /// earlier one), Enter plays the typed column (and clears it when the
    /// move is made, or when nothing usable was typed), Esc or 'q' asks to
    /// quit (the answer is false), and 'r' starts over once the game is over.
    pub fn handle_key(&mut self, key: Key) -> (r: bool)
        requires
            buffer_ok(old(self).input_buffer@),
            old(self).current_player != Cell::Empty,
        ensures
            buffer_ok(final(self).input_buffer@),
            final(self).current_player != Cell::Empty,
            r == !(key == Key::Esc || key == Key::Char('q')),
            (key matches Key::Char(c) && '0' <= c <= '9') ==> final(self).input_buffer@ == digit_text(
                key->Char_0,
            ) && final(self).board == old(self).board && final(self).current_player == old(
                self,
            ).current_player && final(self).game_over == old(self).game_over,
            key == Key::Enter && old(self).input_buffer@.len() == 0 ==> final(self).input_buffer@.len() == 0
                && final(self).board == old(self).board,
            key == Key::Enter && old(self).input_buffer@.len() == 1 && open_column(
                *old(self),
                digit_column(old(self).input_buffer@[0]),
            ) ==> final(self).input_buffer@.len() == 0 && move_made(
                *old(self),
                *final(self),
                digit_column(old(self).input_buffer@[0]),
            ),
            key == Key::Enter && old(self).input_buffer@.len() == 1 && !open_column(
                *old(self),
                digit_column(old(self).input_buffer@[0]),
            ) ==> final(self).input_buffer@ == old(self).input_buffer@ && final(self).board == old(self).board
                && final(self).current_player == old(self).current_player
                && final(self).game_over == old(self).game_over && final(self).winner == old(self).winner,
            key == Key::Char('r') && old(self).game_over ==> all_empty(final(self).board)
                && final(self).current_player == Cell::Player1 && !final(self).game_over,
            key == Key::Other || key == Key::Esc || key == Key::Char('q') || (key == Key::Char('r')
                && !old(self).game_over) ==> final(self).board == old(self).board
                && final(self).input_buffer@ == old(self).input_buffer@,
    {
        match key {
            Key::Char(c) => {
                if '0' <= c && c <= '9' {
                    self.input_buffer = digit_string(c);
                } else if c == 'q' {
                    return false;
                } else if c == 'r' && self.game_over {
                    self.reset();
                }
            },
            Key::Enter => {
                match parse_column(self.input_buffer.as_str()) {
                    Some(col) => {
                        if self.make_move(col).is_ok() {
                            self.input_buffer = String::new();
                        }
                    },
                    None => {
                        self.input_buffer = String::new();
                    },
                }
            },
            Key::Esc => {
                return false;
            },
            Key::Other => {},
        }
        true
    }
}

/// A walk can take no more steps than the board is long.
proof fn lemma_run_bound(b: [[Cell; COLS]; ROWS], r: int, c: int, dr: int, dc: int, p: Cell)
    requires
        on_board(r, c),
        unit_step(dr, dc),
    ensures
        run(b, r, c, dr, dc, p) <= (if dr > 0 {
            ROWS - 1 - r
        } else if dr < 0 {
            r
        } else if dc > 0 {
            COLS - 1 - c
        } else {
            c
        }),
        run(b, r, c, dr, dc, p) <= 6,
    decreases steps_left(r, c, dr, dc),
{
    if on_board(r + dr, c + dc) && cell_at(b, r + dr, c + dc) == p {
        lemma_run_bound(b, r + dr, c + dc, dr, dc, p);
    }
}

/// A successful move read back: the piece is in the bottommost empty cell of
/// its column, the cells below it were already occupied, and no other cell
/// changed.
pub proof fn lemma_piece_lands(b: [[Cell; COLS]; ROWS], after: [[Cell; COLS]; ROWS], col: int, p: Cell)
    requires
        0 <= col < COLS,
        cell_at(b, 0, col) == Cell::Empty,
        placed(b, after, landing_row(b, col, ROWS as int).unwrap(), col, p),
    ensures
        ({
            let row = landing_row(b, col, ROWS as int).unwrap();
            &&& landing_row(b, col, ROWS as int) is Some
            &&& 0 <= row < ROWS
            &&& cell_at(b, row, col) == Cell::Empty
            &&& forall|k: int| row < k < ROWS ==> #[trigger] cell_at(b, k, col) != Cell::Empty
            &&& cell_at(after, row, col) == p
            &&& forall|i: int, j: int| on_board(i, j) && (i != row || j != col) ==> #[trigger] cell_at(after, i, j)
                == cell_at(b, i, j)
        }),
{
    lemma_landing_row(b, col, ROWS as int);
}

proof fn lemma_landing_row(b: [[Cell; COLS]; ROWS], col: int, n: int)
    requires
        0 <= col < COLS,
        1 <= n <= ROWS,
        cell_at(b, 0, col) == Cell::Empty,
    ensures
        landing_row(b, col, n) is Some,
        0 <= landing_row(b, col, n).unwrap() < n,
        cell_at(b, landing_row(b, col, n).unwrap(), col) == Cell::Empty,
        forall|k: int| landing_row(b, col, n).unwrap() < k < n ==> #[trigger] cell_at(b, k, col) != Cell::Empty,
    decreases n,
{
    if n > 1 && cell_at(b, n - 1, col) != Cell::Empty {
        lemma_landing_row(b, col, n - 1);
    }
}

} // verus!
