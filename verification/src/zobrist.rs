//! Zobrist hashing of positions: random keys per cell, player and special
//! piece, combined by exclusive or, with incremental updates, a repetition
//! history, a checker and a collision detector.

use vstd::prelude::*;
use crate::board::Board;
use crate::cell::Cell;
use crate::player::{Player, spec_opponent};
use std::collections::HashMap;

verus! {

/// Number of board rows the keys cover.
pub const KEY_ROWS: usize = 6;
/// Number of board columns the keys cover.
pub const KEY_COLS: usize = 7;

/// The current time in nanoseconds since the Unix epoch, as the system clock
/// gives it (`SystemTime::now().duration_since(UNIX_EPOCH)`, truncated to 64
/// bits), or 0 on a clock set before 1970. It depends on the clock, so
/// nothing is stated of it.
#[verifier::external_body]
fn clock_nanos() -> u64 {
    match std::time::SystemTime::now().duration_since(std::time::UNIX_EPOCH) {
        Ok(d) => d.as_nanos() as u64,
        Err(_) => 0,
    }
}

/// The hash of one `u64` with std's `DefaultHasher` (`Hash::hash`, then
/// `finish`). Its value depends on the hasher's algorithm and on how the
/// number's bytes are laid out in memory, so nothing is stated of it.
#[verifier::external_body]
fn hash_of_u64(x: u64) -> u64 {
    let mut hasher = std::collections::hash_map::DefaultHasher::new();
    std::hash::Hash::hash(&x, &mut hasher);
    std::hash::Hasher::finish(&hasher)
}

/// The index of a player's key: 0 for player 1, 1 for player 2.
pub open spec fn player_index(p: Player) -> int {
    if p == Player::Player1 { 0 } else { 1 }
}

/// The index of a piece's key: 0 for player 1's pieces, 1 for any other.
pub open spec fn piece_index(c: Cell) -> int {
    if c == Cell::Player1 { 0 } else { 1 }
}

/// The special-key index of a cell: 0 for empty and player cells, 1 to 5
/// for blocker, explosive, wall, bomb and wild.
pub open spec fn special_index(c: Cell) -> int {
    match c {
        Cell::Empty => 0,
        Cell::Player1 => 0,
        Cell::Player2 => 0,
        Cell::Blocker => 1,
        Cell::Explosive => 2,
        Cell::Wall => 3,
        Cell::Bomb => 4,
        Cell::Wild => 5,
    }
}

/// Random keys: two per board cell (one per piece index), one per player,
/// and eight for special pieces.
#[derive(Debug)]
pub struct ZobristKeys {
    position_keys: Vec<Vec<[u64; 2]>>,
    player_keys: [u64; 2],
    special_keys: [u64; 8],
}

impl ZobristKeys {
    /// The position keys, row by row.
    pub closed spec fn key_rows(&self) -> Seq<Seq<[u64; 2]>> {
        Seq::new(self.position_keys@.len(), |r: int| self.position_keys@[r]@)
    }

    /// The key of piece index `i` at row `r`, column `c`.
    pub closed spec fn position_key(&self, r: int, c: int, i: int) -> u64 {
        self.key_rows()[r][c][i]
    }

    /// The key of player index `i`.
    pub closed spec fn player_key(&self, i: int) -> u64 {
        self.player_keys[i]
    }

    /// The special key of index `i`.
    pub closed spec fn special_key(&self, i: int) -> u64 {
        self.special_keys[i]
    }

    /// The keys cover a 6x7 board.
    pub closed spec fn wf(&self) -> bool {
        &&& self.key_rows().len() == KEY_ROWS
        &&& forall|r: int| 0 <= r < KEY_ROWS ==> #[trigger] self.key_rows()[r].len() == KEY_COLS
    }

    /// The position keys, row by row.
    pub closed spec fn spec_position_keys(&self) -> Vec<Vec<[u64; 2]>> {
        self.position_keys
    }

    /// The player keys.
    pub closed spec fn spec_player_keys(&self) -> [u64; 2] {
        self.player_keys
    }

    /// The special keys.
    pub closed spec fn spec_special_keys(&self) -> [u64; 8] {
        self.special_keys
    }

    /// Keys with the same rows and special and player keys give the same
    /// key everywhere.
    pub proof fn lemma_same_view(&self, other: &ZobristKeys)
        requires
            self.key_rows() == other.key_rows(),
        ensures
            forall|i: int, j: int, k: int| #[trigger] self.position_key(i, j, k) == other.position_key(i, j, k),
            self.spec_player_keys() == other.spec_player_keys() ==> forall|i: int| #[trigger] self.player_key(i)
                == other.player_key(i),
            self.spec_special_keys() == other.spec_special_keys() ==> forall|i: int| #[trigger] self.special_key(i)
                == other.special_key(i),
            self.wf() == other.wf(),
    {
    }

    /// Keys drawn from the clock.
    pub fn new() -> (r: Self)
        ensures
            r.wf(),
    {
        ZobristKeys {
            position_keys: Self::generate_position_keys(KEY_ROWS, KEY_COLS),
            player_keys: [Self::random_u64(), Self::random_u64()],
            special_keys: Self::generate_special_keys(),
        }
    }

    /// Keys derived from a seed: the position keys from consecutive seeds,
    /// two per cell in row-major order, the player keys from `seed` and
    /// `seed + 1`, the special keys from `seed + 2` on (all wrapping).
    pub fn with_seed(seed: u64) -> (r: Self)
        ensures
            r.wf(),
    {
        ZobristKeys {
            position_keys: Self::generate_position_keys_seeded(KEY_ROWS, KEY_COLS, seed),
            player_keys: [Self::seeded_random(seed), Self::seeded_random(seed.wrapping_add(1))],
            special_keys: Self::generate_special_keys_seeded(seed.wrapping_add(2)),
        }
    }

    fn generate_position_keys(rows: usize, cols: usize) -> (r: Vec<Vec<[u64; 2]>>)
        ensures
            r@.len() == rows,
            forall|i: int| 0 <= i < rows ==> #[trigger] r@[i]@.len() == cols,
    {
        let mut keys: Vec<Vec<[u64; 2]>> = Vec::new();
        let mut i: usize = 0;
        while i < rows
            invariant
                i <= rows,
                keys@.len() == i,
                forall|k: int| 0 <= k < i ==> #[trigger] keys@[k]@.len() == cols,
            decreases rows - i,
        {
            let mut row_keys: Vec<[u64; 2]> = Vec::new();
            let mut j: usize = 0;
            while j < cols
                invariant
                    j <= cols,
                    row_keys@.len() == j,
                decreases cols - j,
            {
                row_keys.push([Self::random_u64(), Self::random_u64()]);
                j = j + 1;
            }
            keys.push(row_keys);
            i = i + 1;
        }
        keys
    }

    fn generate_position_keys_seeded(rows: usize, cols: usize, seed: u64) -> (r: Vec<Vec<[u64; 2]>>)
        ensures
            r@.len() == rows,
            forall|i: int| 0 <= i < rows ==> #[trigger] r@[i]@.len() == cols,
    {
        let mut keys: Vec<Vec<[u64; 2]>> = Vec::new();
        let mut current_seed = seed;
        let mut i: usize = 0;
        while i < rows
            invariant
                i <= rows,
                keys@.len() == i,
                forall|k: int| 0 <= k < i ==> #[trigger] keys@[k]@.len() == cols,
            decreases rows - i,
        {
            let mut row_keys: Vec<[u64; 2]> = Vec::new();
            let mut j: usize = 0;
            while j < cols
                invariant
                    j <= cols,
                    row_keys@.len() == j,
                decreases cols - j,
            {
                row_keys.push([Self::seeded_random(current_seed), Self::seeded_random(current_seed.wrapping_add(1))]);
                current_seed = current_seed.wrapping_add(2);
                j = j + 1;
            }
            keys.push(row_keys);
            i = i + 1;
        }
        keys
    }

    fn generate_special_keys() -> [u64; 8] {
        [
            Self::random_u64(),
            Self::random_u64(),
            Self::random_u64(),
            Self::random_u64(),
            Self::random_u64(),
            Self::random_u64(),
            Self::random_u64(),
            Self::random_u64(),
        ]
    }

    fn generate_special_keys_seeded(seed: u64) -> [u64; 8] {
        [
            Self::seeded_random(seed),
            Self::seeded_random(seed.wrapping_add(1)),
            Self::seeded_random(seed.wrapping_add(2)),
            Self::seeded_random(seed.wrapping_add(3)),
            Self::seeded_random(seed.wrapping_add(4)),
            Self::seeded_random(seed.wrapping_add(5)),
            Self::seeded_random(seed.wrapping_add(6)),
            Self::seeded_random(seed.wrapping_add(7)),
        ]
    }

    /// A number derived from the current time.
    fn random_u64() -> u64 {
        hash_of_u64(clock_nanos())
    }

    /// A number derived from a seed.
    fn seeded_random(seed: u64) -> u64 {
        hash_of_u64(seed)
    }

    /// The hash of a position: the key of the player to move, then, for each
    /// occupied cell in row-major order, its position key and, for a special
    /// piece, its special key, all combined by exclusive or.
    pub fn hash(&self, board: &Board, player: Player) -> (r: u64)
        requires
            self.wf(),
            board.wf(),
            board.spec_rows() <= KEY_ROWS,
            board.spec_cols() <= KEY_COLS,
        ensures
            r == spec_hash(self, board, player),
    {
        let mut hash = self.player_keys[if player == Player::Player1 { 0 } else { 1 }];
        let mut row: usize = 0;
        while row < board.rows()
            invariant
                self.wf(),
                board.wf(),
                board.spec_rows() <= KEY_ROWS,
                board.spec_cols() <= KEY_COLS,
                row <= board.spec_rows(),
                hash == fold_rows(self, board@, board.spec_cols() as int, row as int, self.player_key(player_index(player))),
            decreases board.spec_rows() - row,
        {
            let ghost start = hash;
            let mut col: usize = 0;
            while col < board.cols()
                invariant
                    self.wf(),
                    board.wf(),
                    board.spec_rows() <= KEY_ROWS,
                    board.spec_cols() <= KEY_COLS,
                    row < board.spec_rows(),
                    col <= board.spec_cols(),
                    hash == fold_row(self, board@, row as int, col as int, start),
                decreases board.spec_cols() - col,
            {
                match board.get_at(row, col) {
                    Some(cell) => {
                        if !cell.is_empty() {
                            let player_idx: usize = if cell == Cell::Player1 { 0 } else { 1 };
                            assert(self.key_rows()[row as int].len() == KEY_COLS);
                            hash = hash ^ self.position_keys[row][col][player_idx];
                            let special_type = self.cell_to_special_type(cell);
                            if special_type > 0 {
                                hash = hash ^ self.special_keys[special_type as usize];
                            }
                        }
                    },
                    None => {},
                }
                col = col + 1;
            }
            row = row + 1;
        }
        hash
    }

    /// The hash after placing a piece: the position key of the player's
    /// index at (`row`, `col`), and the special key of `cell` if it is a
    /// special piece, combined into `hash` by exclusive or.
    pub fn update_hash(&self, hash: u64, row: usize, col: usize, player: Player, cell: Cell) -> (r: u64)
        requires
            self.wf(),
            row < KEY_ROWS,
            col < KEY_COLS,
        ensures
            r == toggle(self, hash, row as int, col as int, player, cell),
    {
        let player_idx: usize = if player == Player::Player1 { 0 } else { 1 };
        assert(self.key_rows()[row as int].len() == KEY_COLS);
        let mut new_hash = hash ^ self.position_keys[row][col][player_idx];
        let special_type = self.cell_to_special_type(cell);
        if special_type > 0 {
            new_hash = new_hash ^ self.special_keys[special_type as usize];
        }
        new_hash
    }

    /// The hash after removing a piece: the same keys as placing it,
    /// combined again, which cancels them.
    pub fn remove_hash(&self, hash: u64, row: usize, col: usize, player: Player, cell: Cell) -> (r: u64)
        requires
            self.wf(),
            row < KEY_ROWS,
            col < KEY_COLS,
        ensures
            r == toggle(self, hash, row as int, col as int, player, cell),
    {
        let player_idx: usize = if player == Player::Player1 { 0 } else { 1 };
        assert(self.key_rows()[row as int].len() == KEY_COLS);
        let mut new_hash = hash ^ self.position_keys[row][col][player_idx];
        let special_type = self.cell_to_special_type(cell);
        if special_type > 0 {
            new_hash = new_hash ^ self.special_keys[special_type as usize];
        }
        new_hash
    }

    fn cell_to_special_type(&self, cell: Cell) -> (r: u8)
        ensures
            r == special_index(cell),
    {
        match cell {
            Cell::Empty => 0,
            Cell::Player1 | Cell::Player2 => 0,
            Cell::Blocker => 1,
            Cell::Explosive => 2,
            Cell::Wall => 3,
            Cell::Bomb => 4,
            Cell::Wild => 5,
        }
    }

    /// The position keys.
    pub fn position_keys(&self) -> (r: &Vec<Vec<[u64; 2]>>)
        ensures
            *r == self.spec_position_keys(),
    {
        &self.position_keys
    }

    /// The player keys.
    pub fn player_keys(&self) -> (r: &[u64; 2])
        ensures
            *r == self.spec_player_keys(),
            r[0] == self.player_key(0),
            r[1] == self.player_key(1),
    {
        &self.player_keys
    }

    /// The special keys.
    pub fn special_keys(&self) -> (r: &[u64; 8])
        ensures
            *r == self.spec_special_keys(),
            forall|i: int| 0 <= i < 8 ==> #[trigger] r[i] == self.special_key(i),
    {
        &self.special_keys
    }
}

impl Clone for ZobristKeys {
    /// A copy of the keys.
    fn clone(&self) -> (r: Self)
        ensures
            r.key_rows() == self.key_rows(),
            r.spec_player_keys() == self.spec_player_keys(),
            r.spec_special_keys() == self.spec_special_keys(),
    {
        let mut keys: Vec<Vec<[u64; 2]>> = Vec::new();
        let mut i: usize = 0;
        while i < self.position_keys.len()
            invariant
                i <= self.position_keys@.len(),
                keys@.len() == i,
                forall|k: int| 0 <= k < i ==> #[trigger] keys@[k]@ == self.position_keys@[k]@,
            decreases self.position_keys@.len() - i,
        {
            let mut row: Vec<[u64; 2]> = Vec::new();
            let mut j: usize = 0;
            while j < self.position_keys[i].len()
                invariant
                    i < self.position_keys@.len(),
                    j <= self.position_keys@[i as int]@.len(),
                    row@ == self.position_keys@[i as int]@.subrange(0, j as int),
                decreases self.position_keys@[i as int]@.len() - j,
            {
                row.push(self.position_keys[i][j]);
                j = j + 1;
                assert(row@ =~= self.position_keys@[i as int]@.subrange(0, j as int));
            }
            assert(row@ =~= self.position_keys@[i as int]@);
            keys.push(row);
            i = i + 1;
        }
        let r = ZobristKeys { position_keys: keys, player_keys: self.player_keys, special_keys: self.special_keys };
        assert(r.key_rows() =~= self.key_rows());
        r
    }
}

impl Default for ZobristKeys {
    fn default() -> (r: Self)
        ensures
            r.wf(),
    {
        Self::new()
    }
}

/// One piece's keys combined into `hash`: its position key, then its
/// special key when it is a special piece.
pub open spec fn toggle(keys: &ZobristKeys, hash: u64, r: int, c: int, player: Player, cell: Cell) -> u64 {
    let h = hash ^ keys.position_key(r, c, player_index(player));
    if special_index(cell) > 0 { h ^ keys.special_key(special_index(cell)) } else { h }
}

/// One cell's keys combined into `hash`, as the full hash does it: nothing
/// for an empty cell.
pub open spec fn step(keys: &ZobristKeys, hash: u64, r: int, c: int, cell: Cell) -> u64 {
    if cell == Cell::Empty {
        hash
    } else {
        let h = hash ^ keys.position_key(r, c, piece_index(cell));
        if special_index(cell) > 0 { h ^ keys.special_key(special_index(cell)) } else { h }
    }
}

/// The first `c` cells of row `r` of a grid combined into `hash`.
pub open spec fn fold_row(keys: &ZobristKeys, g: Seq<Seq<Cell>>, r: int, c: int, hash: u64) -> u64
    decreases c,
{
    if c <= 0 {
        hash
    } else {
        step(keys, fold_row(keys, g, r, c - 1, hash), r, c - 1, g[r][c - 1])
    }
}

/// The first `r` rows, of `cols` cells each, combined into `hash`.
pub open spec fn fold_rows(keys: &ZobristKeys, g: Seq<Seq<Cell>>, cols: int, r: int, hash: u64) -> u64
    decreases r,
{
    if r <= 0 {
        hash
    } else {
        fold_row(keys, g, r - 1, cols, fold_rows(keys, g, cols, r - 1, hash))
    }
}

/// The Zobrist hash of a grid of `rows` rows and `cols` columns with
/// `player` to move.
pub open spec fn grid_hash(keys: &ZobristKeys, g: Seq<Seq<Cell>>, rows: int, cols: int, player: Player) -> u64 {
    fold_rows(keys, g, cols, rows, keys.player_key(player_index(player)))
}

/// The Zobrist hash of a position.
pub open spec fn spec_hash(keys: &ZobristKeys, b: &Board, player: Player) -> u64 {
    grid_hash(keys, b@, b.spec_rows() as int, b.spec_cols() as int, player)
}

/// Removing a piece undoes placing it: the two updates cancel.
pub proof fn lemma_remove_undoes_update(
    keys: &ZobristKeys,
    hash: u64,
    r: int,
    c: int,
    player: Player,
    cell: Cell,
)
    ensures
        toggle(keys, toggle(keys, hash, r, c, player, cell), r, c, player, cell) == hash,
{
    let a = keys.position_key(r, c, player_index(player));
    let b = keys.special_key(special_index(cell));
    assert((hash ^ a) ^ a == hash) by (bit_vector);
    assert((((hash ^ a) ^ b) ^ a) ^ b == hash) by (bit_vector);
}

/// Keys with the same key arrays, such as a key set and its clone, give
/// every position the same hash.
pub proof fn lemma_clone_hashes_alike(k1: &ZobristKeys, k2: &ZobristKeys, b: &Board, player: Player)
    requires
        k1.key_rows() == k2.key_rows(),
        k1.spec_player_keys() == k2.spec_player_keys(),
        k1.spec_special_keys() == k2.spec_special_keys(),
    ensures
        spec_hash(k1, b, player) == spec_hash(k2, b, player),
{
    k1.lemma_same_view(k2);
    lemma_same_keys_same_hash(k1, k2, b, player);
}

/// Combining a value into a cell's step commutes with the step.
proof fn lemma_step_xor(keys: &ZobristKeys, h: u64, x: u64, r: int, c: int, cell: Cell)
    ensures
        step(keys, h ^ x, r, c, cell) == step(keys, h, r, c, cell) ^ x,
{
    let a = keys.position_key(r, c, piece_index(cell));
    let b = keys.special_key(special_index(cell));
    assert((h ^ x) ^ a == (h ^ a) ^ x) by (bit_vector);
    assert(((h ^ x) ^ a) ^ b == ((h ^ a) ^ b) ^ x) by (bit_vector);
}

/// Combining a value into the start of a row's fold combines it into the
/// result.
proof fn lemma_fold_row_xor(keys: &ZobristKeys, g: Seq<Seq<Cell>>, r: int, c: int, h: u64, x: u64)
    ensures
        fold_row(keys, g, r, c, h ^ x) == fold_row(keys, g, r, c, h) ^ x,
    decreases c,
{
    if c > 0 {
        lemma_fold_row_xor(keys, g, r, c - 1, h, x);
        lemma_step_xor(keys, fold_row(keys, g, r, c - 1, h), x, r, c - 1, g[r][c - 1]);
    }
}

/// Combining a value into the start of the rows' fold combines it into the
/// result.
proof fn lemma_fold_rows_xor(keys: &ZobristKeys, g: Seq<Seq<Cell>>, cols: int, r: int, h: u64, x: u64)
    ensures
        fold_rows(keys, g, cols, r, h ^ x) == fold_rows(keys, g, cols, r, h) ^ x,
    decreases r,
{
    if r > 0 {
        lemma_fold_rows_xor(keys, g, cols, r - 1, h, x);
        lemma_fold_row_xor(keys, g, r - 1, cols, fold_rows(keys, g, cols, r - 1, h), x);
    }
}

/// The change a piece makes to the hash: its keys combined into 0.
pub open spec fn piece_delta(keys: &ZobristKeys, r: int, c: int, cell: Cell) -> u64 {
    step(keys, 0, r, c, cell)
}

/// Folding a row of a grid where one empty cell was filled gives the fold of
/// the old row with the piece's change combined in, once the fold has
/// passed the cell.
proof fn lemma_fold_row_place(
    keys: &ZobristKeys,
    g: Seq<Seq<Cell>>,
    g2: Seq<Seq<Cell>>,
    r0: int,
    c0: int,
    cell: Cell,
    r: int,
    c: int,
    h: u64,
)
    requires
        0 <= r0 < g.len(),
        0 <= c0 < g[r0].len(),
        g[r0][c0] == Cell::Empty,
        g2 == g.update(r0, g[r0].update(c0, cell)),
        0 <= r < g.len(),
        c <= g[r].len(),
    ensures
        fold_row(keys, g2, r, c, h) == fold_row(keys, g, r, c, h) ^ (if r == r0 && c0 < c {
            piece_delta(keys, r0, c0, cell)
        } else {
            0u64
        }),
    decreases c,
{
    let d = piece_delta(keys, r0, c0, cell);
    if c <= 0 {
        assert(h ^ 0u64 == h) by (bit_vector);
    } else {
        lemma_fold_row_place(keys, g, g2, r0, c0, cell, r, c - 1, h);
        let f = fold_row(keys, g, r, c - 1, h);
        assert(f ^ 0u64 == f) by (bit_vector);
        if r == r0 && c - 1 == c0 {
            lemma_step_xor(keys, 0, f, r0, c0, cell);
            assert(0u64 ^ f == f) by (bit_vector);
            assert(d ^ f == f ^ d) by (bit_vector);
        } else {
            assert(g2[r][c - 1] == g[r][c - 1]);
            let e: u64 = if r == r0 && c0 < c - 1 { d } else { 0u64 };
            lemma_step_xor(keys, f, e, r, c - 1, g[r][c - 1]);
        }
    }
}

/// Folding the rows of a grid where one empty cell was filled gives the
/// fold of the old grid with the piece's change combined in, once the fold
/// has passed the cell.
proof fn lemma_fold_rows_place(
    keys: &ZobristKeys,
    g: Seq<Seq<Cell>>,
    g2: Seq<Seq<Cell>>,
    rows: int,
    cols: int,
    r0: int,
    c0: int,
    cell: Cell,
    r: int,
    h: u64,
)
    requires
        crate::board::grid_shape(g, rows, cols),
        0 <= r0 < rows,
        0 <= c0 < cols,
        g[r0][c0] == Cell::Empty,
        g2 == g.update(r0, g[r0].update(c0, cell)),
        r <= rows,
    ensures
        fold_rows(keys, g2, cols, r, h) == fold_rows(keys, g, cols, r, h) ^ (if r0 < r {
            piece_delta(keys, r0, c0, cell)
        } else {
            0u64
        }),
    decreases r,
{
    let d = piece_delta(keys, r0, c0, cell);
    if r <= 0 {
        assert(h ^ 0u64 == h) by (bit_vector);
    } else {
        lemma_fold_rows_place(keys, g, g2, rows, cols, r0, c0, cell, r - 1, h);
        let f = fold_rows(keys, g, cols, r - 1, h);
        let e: u64 = if r0 < r - 1 { d } else { 0u64 };
        lemma_fold_row_xor(keys, g2, r - 1, cols, f, e);
        lemma_fold_row_place(keys, g, g2, r0, c0, cell, r - 1, cols, f);
        let a = fold_row(keys, g, r - 1, cols, f);
        assert((a ^ 0u64) ^ 0u64 == a ^ 0u64) by (bit_vector);
        assert((a ^ d) ^ 0u64 == a ^ d) by (bit_vector);
        assert((a ^ 0u64) ^ d == a ^ d) by (bit_vector);
    }
}

/// The full hash of a position with `player` to move is the position's
/// pieces folded into 0, combined with the player's key.
proof fn lemma_grid_hash_split(keys: &ZobristKeys, g: Seq<Seq<Cell>>, rows: int, cols: int, player: Player)
    ensures
        grid_hash(keys, g, rows, cols, player) == fold_rows(keys, g, cols, rows, 0) ^ keys.player_key(
            player_index(player),
        ),
{
    let k = keys.player_key(player_index(player));
    assert(0u64 ^ k == k) by (bit_vector);
    lemma_fold_rows_xor(keys, g, cols, rows, 0, k);
}

/// The full hashes of one position with either player to move differ by the
/// two player keys: combined, they give the player keys combined.
pub proof fn lemma_hash_players(keys: &ZobristKeys, b: &Board)
    ensures
        spec_hash(keys, b, Player::Player1) ^ spec_hash(keys, b, Player::Player2) == keys.player_key(0)
            ^ keys.player_key(1),
{
    let f = fold_rows(keys, b@, b.spec_cols() as int, b.spec_rows() as int, 0);
    let k0 = keys.player_key(0);
    let k1 = keys.player_key(1);
    lemma_grid_hash_split(keys, b@, b.spec_rows() as int, b.spec_cols() as int, Player::Player1);
    lemma_grid_hash_split(keys, b@, b.spec_rows() as int, b.spec_cols() as int, Player::Player2);
    assert((f ^ k0) ^ (f ^ k1) == k0 ^ k1) by (bit_vector);
}

/// Passing the move turns the full hash of a position with `player` to move
/// into the full hash of the same position with the opponent to move: the
/// player's key is taken out and the opponent's put in, as
/// `IncrementalHasher::switch_player` does.
pub proof fn lemma_switch_gives_opponent_hash(keys: &ZobristKeys, b: &Board, player: Player)
    ensures
        spec_hash(keys, b, player) ^ keys.player_key(player_index(player)) ^ keys.player_key(
            player_index(spec_opponent(player)),
        ) == spec_hash(keys, b, spec_opponent(player)),
{
    let f = fold_rows(keys, b@, b.spec_cols() as int, b.spec_rows() as int, 0);
    let k = keys.player_key(player_index(player));
    let m = keys.player_key(player_index(spec_opponent(player)));
    lemma_grid_hash_split(keys, b@, b.spec_rows() as int, b.spec_cols() as int, player);
    lemma_grid_hash_split(keys, b@, b.spec_rows() as int, b.spec_cols() as int, spec_opponent(player));
    assert(((f ^ k) ^ k) ^ m == f ^ m) by (bit_vector);
}

/// Dropping a player's piece into an empty cell changes the full hash, for
/// either player to move, by one `update_hash` of that piece: the hash of
/// the new position is the old hash with the piece's keys combined in.
pub proof fn lemma_hash_after_placing(keys: &ZobristKeys, b: &Board, b2: &Board, r: int, c: int, p: Player, q: Player)
    requires
        b.wf(),
        0 <= r < b.spec_rows(),
        0 <= c < b.spec_cols(),
        b.at(r, c) == Cell::Empty,
        b.updated(b2, r, c, crate::player::spec_cell(p)),
    ensures
        spec_hash(keys, b2, q) == toggle(keys, spec_hash(keys, b, q), r, c, p, crate::player::spec_cell(p)),
{
    let cell = crate::player::spec_cell(p);
    let rows = b.spec_rows() as int;
    let cols = b.spec_cols() as int;
    let k = keys.player_key(player_index(q));
    let pk = keys.position_key(r, c, player_index(p));
    lemma_fold_rows_place(keys, b@, b2@, rows, cols, r, c, cell, rows, k);
    assert(piece_index(cell) == player_index(p));
    assert(special_index(cell) == 0);
    assert(0u64 ^ pk == pk) by (bit_vector);
}

/// A hash with extra information about the position.
#[derive(Debug, Clone, Copy, PartialEq, Eq, Hash, Structural)]
pub struct ZobristHash {
    /// The hash value.
    pub hash: u64,
    /// Board rows.
    pub rows: u8,
    /// Board columns.
    pub cols: u8,
    /// Extra information.
    pub metadata: u64,
}

impl ZobristHash {
    /// A hash with no metadata.
    pub fn new(hash: u64, rows: u8, cols: u8) -> (r: Self)
        ensures
            r == (ZobristHash { hash, rows, cols, metadata: 0 }),
    {
        ZobristHash { hash, rows, cols, metadata: 0 }
    }

    /// A hash with metadata.
    pub fn with_metadata(hash: u64, rows: u8, cols: u8, metadata: u64) -> (r: Self)
        ensures
            r == (ZobristHash { hash, rows, cols, metadata }),
    {
        ZobristHash { hash, rows, cols, metadata }
    }

    /// Sets the metadata.
    pub fn set_metadata(&mut self, metadata: u64)
        ensures
            *final(self) == (ZobristHash { metadata, ..*old(self) }),
    {
        self.metadata = metadata;
    }

    /// The hash times 31 plus the metadata, modulo 2^64.
    pub fn combined_hash(&self) -> (r: u64)
        ensures
            r == ((self.hash * 31) % 0x1_0000_0000_0000_0000 + self.metadata) % 0x1_0000_0000_0000_0000,
    {
        self.hash.wrapping_mul(31).wrapping_add(self.metadata)
    }
}

/// The number of entries of `s` with the hash value `h`.
pub open spec fn occurrences(s: Seq<ZobristHash>, h: u64) -> nat
    decreases s.len(),
{
    if s.len() == 0 {
        0
    } else {
        occurrences(s.drop_last(), h) + if s.last().hash == h { 1nat } else { 0nat }
    }
}

/// A bounded history of hashes, for detecting repeated positions.
#[derive(Debug, Clone)]
pub struct HashHistory {
    hashes: Vec<ZobristHash>,
    max_length: usize,
}

impl HashHistory {
    /// The hashes, oldest first.
    pub closed spec fn spec_hashes(&self) -> Seq<ZobristHash> {
        self.hashes@
    }

    /// The most hashes kept.
    pub closed spec fn spec_max_length(&self) -> usize {
        self.max_length
    }

    /// An empty history keeping at most `max_length` hashes.
    pub fn new(max_length: usize) -> (r: Self)
        ensures
            r.spec_hashes() == Seq::<ZobristHash>::empty(),
            r.spec_max_length() == max_length,
    {
        HashHistory { hashes: Vec::new(), max_length }
    }

    /// An empty history keeping at most 100 hashes.
    pub fn default() -> (r: Self)
        ensures
            r.spec_hashes() == Seq::<ZobristHash>::empty(),
            r.spec_max_length() == 100,
    {
        Self::new(100)
    }

    /// Adds a hash; when that makes the history longer than its maximum, the
    /// oldest hash is dropped.
    pub fn push(&mut self, hash: ZobristHash)
        ensures
            final(self).spec_max_length() == old(self).spec_max_length(),
            final(self).spec_hashes() == spec_after_push(old(self).spec_hashes(), old(self).spec_max_length(), hash),
    {
        self.hashes.push(hash);
        if self.hashes.len() > self.max_length {
            self.hashes.remove(0);
            assert(self.hashes@ =~= old(self).hashes@.push(hash).drop_first());
        }
    }

    /// Returns true if the hash value occurs three times or more.
    pub fn check_repetition(&self, hash: ZobristHash) -> (r: bool)
        ensures
            r == (occurrences(self.spec_hashes(), hash.hash) >= 3),
    {
        self.count_occurrences(hash) >= 3
    }

    /// The number of entries with the same hash value.
    pub fn count_occurrences(&self, hash: ZobristHash) -> (r: usize)
        ensures
            r == occurrences(self.spec_hashes(), hash.hash),
    {
        let mut count: usize = 0;
        let mut i: usize = 0;
        while i < self.hashes.len()
            invariant
                i <= self.hashes@.len(),
                count == occurrences(self.hashes@.subrange(0, i as int), hash.hash),
                count <= i,
            decreases self.hashes@.len() - i,
        {
            assert(self.hashes@.subrange(0, i + 1).drop_last() =~= self.hashes@.subrange(0, i as int));
            if self.hashes[i].hash == hash.hash {
                count = count + 1;
            }
            i = i + 1;
        }
        assert(self.hashes@.subrange(0, self.hashes@.len() as int) =~= self.hashes@);
        count
    }

    /// Returns true if the hash value occurs twice or more.
    pub fn check_twofold(&self, hash: ZobristHash) -> (r: bool)
        ensures
            r == (occurrences(self.spec_hashes(), hash.hash) >= 2),
    {
        self.count_occurrences(hash) >= 2
    }

    /// Empties the history.
    pub fn clear(&mut self)
        ensures
            final(self).spec_hashes() == Seq::<ZobristHash>::empty(),
            final(self).spec_max_length() == old(self).spec_max_length(),
    {
        self.hashes.clear();
    }

    /// The number of hashes kept.
    pub fn len(&self) -> (r: usize)
        ensures
            r == self.spec_hashes().len(),
    {
        self.hashes.len()
    }

    /// Returns true if no hash is kept.
    pub fn is_empty(&self) -> (r: bool)
        ensures
            r == (self.spec_hashes().len() == 0),
    {
        self.hashes.len() == 0
    }

    /// The newest hash.
    pub fn last(&self) -> (r: Option<&ZobristHash>)
        ensures
            self.spec_hashes().len() == 0 ==> r is None,
            self.spec_hashes().len() > 0 ==> r is Some && *r.unwrap() == self.spec_hashes().last(),
    {
        let n = self.hashes.len();
        if n == 0 {
            None
        } else {
            Some(&self.hashes[n - 1])
        }
    }

    /// Removes and returns the newest hash.
    pub fn pop(&mut self) -> (r: Option<ZobristHash>)
        ensures
            final(self).spec_max_length() == old(self).spec_max_length(),
            old(self).spec_hashes().len() == 0 ==> r is None && final(self).spec_hashes() == old(
                self,
            ).spec_hashes(),
            old(self).spec_hashes().len() > 0 ==> r == Some(old(self).spec_hashes().last())
                && final(self).spec_hashes() == old(self).spec_hashes().drop_last(),
    {
        self.hashes.pop()
    }
}

/// The hashes kept after pushing `hash` onto `hashes` with at most `max`
/// kept: the oldest is dropped when there would be too many.
pub open spec fn spec_after_push(hashes: Seq<ZobristHash>, max: usize, hash: ZobristHash) -> Seq<ZobristHash> {
    if hashes.len() + 1 > max {
        hashes.push(hash).drop_first()
    } else {
        hashes.push(hash)
    }
}

/// In a history that keeps at least one hash, the newest hash after a push
/// is the pushed one, and when the history had room, taking it off again
/// leaves the history as it was.
pub proof fn lemma_pop_after_push(hashes: Seq<ZobristHash>, max: usize, hash: ZobristHash)
    requires
        max >= 1,
    ensures
        spec_after_push(hashes, max, hash).len() > 0,
        spec_after_push(hashes, max, hash).last() == hash,
        hashes.len() + 1 <= max ==> spec_after_push(hashes, max, hash).drop_last() == hashes,
{
    if hashes.len() + 1 <= max {
        assert(hashes.push(hash).drop_last() =~= hashes);
    }
}

/// A hash kept up to date move by move.
pub struct IncrementalHasher {
    keys: ZobristKeys,
    current_hash: u64,
    current_player: Player,
}

impl IncrementalHasher {
    /// The keys used.
    pub closed spec fn spec_keys(&self) -> ZobristKeys {
        self.keys
    }

    /// The current hash.
    pub closed spec fn spec_hash(&self) -> u64 {
        self.current_hash
    }

    /// The player recorded as to move.
    pub closed spec fn spec_player(&self) -> Player {
        self.current_player
    }

    /// A hasher starting from the full hash of a position.
    pub fn new(keys: ZobristKeys, initial_board: &Board, player: Player) -> (r: Self)
        requires
            keys.wf(),
            initial_board.wf(),
            initial_board.spec_rows() <= KEY_ROWS,
            initial_board.spec_cols() <= KEY_COLS,
        ensures
            r.spec_keys() == keys,
            r.spec_hash() == spec_hash(&keys, initial_board, player),
            r.spec_player() == player,
    {
        let current_hash = keys.hash(initial_board, player);
        IncrementalHasher { keys, current_hash, current_player: player }
    }

    /// A hasher with keys drawn from the clock.
    pub fn with_default_keys(board: &Board, player: Player) -> (r: Self)
        requires
            board.wf(),
            board.spec_rows() <= KEY_ROWS,
            board.spec_cols() <= KEY_COLS,
        ensures
            r.spec_keys().wf(),
            r.spec_hash() == spec_hash(&r.spec_keys(), board, player),
            r.spec_player() == player,
    {
        Self::new(ZobristKeys::new(), board, player)
    }

    /// Places a piece: its keys are combined into the hash, and `player` is
    /// recorded.
    pub fn apply_move(&mut self, row: usize, col: usize, player: Player, cell: Cell)
        requires
            old(self).spec_keys().wf(),
            row < KEY_ROWS,
            col < KEY_COLS,
        ensures
            final(self).spec_keys() == old(self).spec_keys(),
            final(self).spec_hash() == toggle(&old(self).spec_keys(), old(self).spec_hash(), row as int, col as int, player, cell),
            final(self).spec_player() == player,
    {
        self.current_hash = self.keys.update_hash(self.current_hash, row, col, player, cell);
        self.current_player = player;
    }

    /// Removes a piece: its keys are combined into the hash again, and
    /// `player` is recorded.
    pub fn remove_move(&mut self, row: usize, col: usize, player: Player, cell: Cell)
        requires
            old(self).spec_keys().wf(),
            row < KEY_ROWS,
            col < KEY_COLS,
        ensures
            final(self).spec_keys() == old(self).spec_keys(),
            final(self).spec_hash() == toggle(&old(self).spec_keys(), old(self).spec_hash(), row as int, col as int, player, cell),
            final(self).spec_player() == player,
    {
        self.current_hash = self.keys.remove_hash(self.current_hash, row, col, player, cell);
        self.current_player = player;
    }

    /// Passes the move: the key of the player to move is taken out of the
    /// hash and the other player's key put in.
    pub fn switch_player(&mut self)
        ensures
            final(self).spec_keys() == old(self).spec_keys(),
            final(self).spec_player() == spec_opponent(old(self).spec_player()),
            final(self).spec_hash() == old(self).spec_hash() ^ old(self).spec_keys().player_key(
                player_index(old(self).spec_player()),
            ) ^ old(self).spec_keys().player_key(player_index(spec_opponent(old(self).spec_player()))),
    {
        let i: usize = if self.current_player == Player::Player1 { 0 } else { 1 };
        self.current_hash = self.current_hash ^ self.keys.player_keys[i];
        self.current_player = if self.current_player == Player::Player1 {
            Player::Player2
        } else {
            Player::Player1
        };
        let j: usize = if self.current_player == Player::Player1 { 0 } else { 1 };
        self.current_hash = self.current_hash ^ self.keys.player_keys[j];
    }

    /// The current hash.
    pub fn current_hash(&self) -> (r: u64)
        ensures
            r == self.spec_hash(),
    {
        self.current_hash
    }

    /// The player recorded as to move.
    pub fn current_player(&self) -> (r: Player)
        ensures
            r == self.spec_player(),
    {
        self.current_player
    }

    /// Starts again from the full hash of a position.
    pub fn reset(&mut self, board: &Board, player: Player)
        requires
            old(self).spec_keys().wf(),
            board.wf(),
            board.spec_rows() <= KEY_ROWS,
            board.spec_cols() <= KEY_COLS,
        ensures
            final(self).spec_keys() == old(self).spec_keys(),
            final(self).spec_hash() == spec_hash(&old(self).spec_keys(), board, player),
            final(self).spec_player() == player,
    {
        self.current_hash = self.keys.hash(board, player);
        self.current_player = player;
    }

    /// A copy of the hasher.
    pub fn clone(&self) -> (r: Self)
        ensures
            r.spec_keys().key_rows() == self.spec_keys().key_rows(),
            r.spec_keys().spec_player_keys() == self.spec_keys().spec_player_keys(),
            r.spec_keys().spec_special_keys() == self.spec_keys().spec_special_keys(),
            r.spec_hash() == self.spec_hash(),
            r.spec_player() == self.spec_player(),
    {
        IncrementalHasher { keys: self.keys.clone(), current_hash: self.current_hash, current_player: self.current_player }
    }
}

/// Passing the move twice gives back the same hash and player.
pub proof fn lemma_switch_twice(keys: &ZobristKeys, hash: u64, p: Player)
    ensures
        ({
            let q = spec_opponent(p);
            let h1 = hash ^ keys.player_key(player_index(p)) ^ keys.player_key(player_index(q));
            let h2 = h1 ^ keys.player_key(player_index(q)) ^ keys.player_key(player_index(spec_opponent(q)));
            spec_opponent(q) == p && h2 == hash
        }),
{
    let a = keys.player_key(player_index(p));
    let b = keys.player_key(player_index(spec_opponent(p)));
    assert(hash ^ a ^ b ^ b ^ a == hash) by (bit_vector);
}

/// The hash after a sequence of moves applied one by one.
pub open spec fn fold_moves(keys: &ZobristKeys, hash: u64, moves: Seq<(usize, usize, Player, Cell)>, n: int) -> u64
    decreases n,
{
    if n <= 0 {
        hash
    } else {
        let m = moves[n - 1];
        toggle(keys, fold_moves(keys, hash, moves, n - 1), m.0 as int, m.1 as int, m.2, m.3)
    }
}

/// Checks hashes against the full computation.
pub struct HashVerifier {
    pub keys: ZobristKeys,
}

impl HashVerifier {
    /// A checker using the given keys.
    pub fn new(keys: ZobristKeys) -> (r: Self)
        ensures
            r.keys == keys,
    {
        HashVerifier { keys }
    }

    /// Checks that a hash kept up to date equals the full hash.
    pub fn verify(&self, board: &Board, player: Player, incremental_hash: u64) -> (r: bool)
        requires
            self.keys.wf(),
            board.wf(),
            board.spec_rows() <= KEY_ROWS,
            board.spec_cols() <= KEY_COLS,
        ensures
            r == (incremental_hash == spec_hash(&self.keys, board, player)),
    {
        let full_hash = self.keys.hash(board, player);
        incremental_hash == full_hash
    }

    /// Checks that applying moves, from the full hash of a position with
    /// player 1 to move, ends at `final_hash`.
    pub fn verify_sequence(
        &self,
        initial_board: &Board,
        moves: &[(usize, usize, Player, Cell)],
        final_hash: u64,
    ) -> (r: bool)
        requires
            self.keys.wf(),
            initial_board.wf(),
            initial_board.spec_rows() <= KEY_ROWS,
            initial_board.spec_cols() <= KEY_COLS,
            forall|i: int| 0 <= i < moves@.len() ==> #[trigger] moves@[i].0 < KEY_ROWS && moves@[i].1 < KEY_COLS,
        ensures
            r == (final_hash == fold_moves(
                &self.keys,
                spec_hash(&self.keys, initial_board, Player::Player1),
                moves@,
                moves@.len() as int,
            )),
    {
        let keys = self.keys.clone();
        let ghost start = spec_hash(&self.keys, initial_board, Player::Player1);
        proof {
            keys.lemma_same_view(&self.keys);
            lemma_same_keys_same_hash(&keys, &self.keys, initial_board, Player::Player1);
        }
        let mut hasher = IncrementalHasher::new(keys, initial_board, Player::Player1);
        let mut i: usize = 0;
        while i < moves.len()
            invariant
                self.keys.wf(),
                hasher.spec_keys().wf(),
                hasher.spec_keys().key_rows() == self.keys.key_rows(),
                hasher.spec_keys().spec_special_keys() == self.keys.spec_special_keys(),
                i <= moves@.len(),
                forall|k: int| 0 <= k < moves@.len() ==> #[trigger] moves@[k].0 < KEY_ROWS && moves@[k].1 < KEY_COLS,
                hasher.spec_hash() == fold_moves(&self.keys, start, moves@, i as int),
            decreases moves@.len() - i,
        {
            let (row, col, player, cell) = moves[i];
            assert(moves@[i as int].0 < KEY_ROWS && moves@[i as int].1 < KEY_COLS);
            proof {
                hasher.spec_keys().lemma_same_view(&self.keys);
            }
            hasher.apply_move(row, col, player, cell);
            i = i + 1;
        }
        hasher.current_hash() == final_hash
    }
}

/// Keys that agree everywhere give the same hash.
proof fn lemma_same_keys_same_hash(a: &ZobristKeys, b: &ZobristKeys, board: &Board, player: Player)
    requires
        forall|i: int, j: int, k: int| #[trigger] a.position_key(i, j, k) == b.position_key(i, j, k),
        forall|i: int| #[trigger] a.player_key(i) == b.player_key(i),
        forall|i: int| #[trigger] a.special_key(i) == b.special_key(i),
    ensures
        spec_hash(a, board, player) == spec_hash(b, board, player),
{
    assert forall|r: int, h: u64| #[trigger] fold_rows(a, board@, board.spec_cols() as int, r, h) == fold_rows(b, board@, board.spec_cols() as int, r, h) by {
        lemma_same_keys_fold_rows(a, b, board@, board.spec_cols() as int, r, h);
    }
    assert(a.player_key(player_index(player)) == b.player_key(player_index(player)));
}

proof fn lemma_same_keys_fold_rows(a: &ZobristKeys, b: &ZobristKeys, g: Seq<Seq<Cell>>, cols: int, r: int, h: u64)
    requires
        forall|i: int, j: int, k: int| #[trigger] a.position_key(i, j, k) == b.position_key(i, j, k),
        forall|i: int| #[trigger] a.special_key(i) == b.special_key(i),
    ensures
        fold_rows(a, g, cols, r, h) == fold_rows(b, g, cols, r, h),
    decreases r,
{
    if r > 0 {
        lemma_same_keys_fold_rows(a, b, g, cols, r - 1, h);
        lemma_same_keys_fold_row(a, b, g, r - 1, cols, fold_rows(a, g, cols, r - 1, h));
    }
}

proof fn lemma_same_keys_fold_row(a: &ZobristKeys, b: &ZobristKeys, g: Seq<Seq<Cell>>, r: int, c: int, h: u64)
    requires
        forall|i: int, j: int, k: int| #[trigger] a.position_key(i, j, k) == b.position_key(i, j, k),
        forall|i: int| #[trigger] a.special_key(i) == b.special_key(i),
    ensures
        fold_row(a, g, r, c, h) == fold_row(b, g, r, c, h),
    decreases c,
{
    if c > 0 {
        lemma_same_keys_fold_row(a, b, g, r, c - 1, h);
    }
}

/// Counts hash collisions: the same hash for different positions.
#[derive(Debug, Clone)]
pub struct CollisionDetector {
    hash_map: HashMap<u64, Vec<u8>>,
    collisions: usize,
    total_hashes: usize,
}

/// Two byte strings hold the same bytes.
fn same_bytes(a: &[u8], b: &[u8]) -> (r: bool)
    ensures
        r == (a@ == b@),
{
    if a.len() != b.len() {
        return false;
    }
    let mut i: usize = 0;
    while i < a.len()
        invariant
            a@.len() == b@.len(),
            i <= a@.len(),
            forall|k: int| 0 <= k < i ==> a@[k] == b@[k],
        decreases a@.len() - i,
    {
        if a[i] != b[i] {
            return false;
        }
        i = i + 1;
    }
    assert(a@ =~= b@);
    true
}

/// A copy of a byte string.
fn bytes_to_vec(a: &[u8]) -> (r: Vec<u8>)
    ensures
        r@ == a@,
{
    let mut v: Vec<u8> = Vec::new();
    let mut i: usize = 0;
    while i < a.len()
        invariant
            i <= a@.len(),
            v@ == a@.subrange(0, i as int),
        decreases a@.len() - i,
    {
        v.push(a[i]);
        i = i + 1;
        assert(v@ =~= a@.subrange(0, i as int));
    }
    assert(v@ =~= a@);
    v
}

impl CollisionDetector {
    /// The position first seen for each hash.
    pub closed spec fn spec_seen(&self) -> Map<u64, Seq<u8>> {
        self.hash_map@.map_values(|v: Vec<u8>| v@)
    }

    /// The number of collisions found.
    pub closed spec fn spec_collisions(&self) -> usize {
        self.collisions
    }

    /// The number of hashes checked.
    pub closed spec fn spec_total(&self) -> usize {
        self.total_hashes
    }

    /// The detector's invariant: no more collisions than checks.
    pub closed spec fn wf(&self) -> bool {
        self.collisions <= self.total_hashes
    }

    /// A detector that has seen nothing.
    pub fn new() -> (r: Self)
        ensures
            r.wf(),
            r.spec_seen() == Map::<u64, Seq<u8>>::empty(),
            r.spec_collisions() == 0,
            r.spec_total() == 0,
    {
        let r = CollisionDetector { hash_map: HashMap::new(), collisions: 0, total_hashes: 0 };
        assert(r.spec_seen() =~= Map::<u64, Seq<u8>>::empty());
        r
    }

    /// Checks a hash and the position it was computed for: a hash seen
    /// before with other bytes is a collision (counted, and the answer is
    /// true); a new hash is remembered with its bytes.
    pub fn check_collision(&mut self, hash: u64, board_repr: &[u8]) -> (r: bool)
        requires
            old(self).wf(),
            old(self).spec_total() < usize::MAX,
        ensures
            final(self).wf(),
            final(self).spec_total() == old(self).spec_total() + 1,
            old(self).spec_seen().contains_key(hash) ==> final(self).spec_seen() == old(self).spec_seen()
                && r == (old(self).spec_seen()[hash] != board_repr@) && final(self).spec_collisions()
                == old(self).spec_collisions() + (if r { 1int } else { 0int }),
            !old(self).spec_seen().contains_key(hash) ==> !r && final(self).spec_seen() == old(
                self,
            ).spec_seen().insert(hash, board_repr@) && final(self).spec_collisions()
                == old(self).spec_collisions(),
    {
        broadcast use vstd::std_specs::hash::group_hash_axioms;
        self.total_hashes = self.total_hashes + 1;
        let found = match self.hash_map.get(&hash) {
            Some(existing) => Some(same_bytes(existing.as_slice(), board_repr)),
            None => None,
        };
        match found {
            Some(same) => {
                if !same {
                    self.collisions = self.collisions + 1;
                    return true;
                }
            },
            None => {
                let v = bytes_to_vec(board_repr);
                self.hash_map.insert(hash, v);
                assert(self.spec_seen() =~= old(self).spec_seen().insert(hash, board_repr@));
            },
        }
        false
    }

    /// The number of collisions found.
    pub fn collisions(&self) -> (r: usize)
        ensures
            r == self.spec_collisions(),
    {
        self.collisions
    }

    /// The number of hashes checked.
    pub fn total_hashes(&self) -> (r: usize)
        ensures
            r == self.spec_total(),
    {
        self.total_hashes
    }

    /// Forgets everything.
    pub fn clear(&mut self)
        ensures
            final(self).wf(),
            final(self).spec_seen() == Map::<u64, Seq<u8>>::empty(),
            final(self).spec_collisions() == 0,
            final(self).spec_total() == 0,
    {
        self.hash_map.clear();
        self.collisions = 0;
        self.total_hashes = 0;
        assert(self.spec_seen() =~= Map::<u64, Seq<u8>>::empty());
    }
}

impl Default for CollisionDetector {
    fn default() -> (r: Self)
        ensures
            r.wf(),
            r.spec_seen() == Map::<u64, Seq<u8>>::empty(),
            r.spec_collisions() == 0,
            r.spec_total() == 0,
    {
        Self::new()
    }
}

/// The byte of a cell: its place in the declaration of `Cell`, from 0.
pub open spec fn cell_byte(c: Cell) -> u8 {
    match c {
        Cell::Empty => 0,
        Cell::Player1 => 1,
        Cell::Player2 => 2,
        Cell::Blocker => 3,
        Cell::Explosive => 4,
        Cell::Wall => 5,
        Cell::Bomb => 6,
        Cell::Wild => 7,
    }
}

fn cell_to_byte(c: Cell) -> (r: u8)
    ensures
        r == cell_byte(c),
{
    match c {
        Cell::Empty => 0,
        Cell::Player1 => 1,
        Cell::Player2 => 2,
        Cell::Blocker => 3,
        Cell::Explosive => 4,
        Cell::Wall => 5,
        Cell::Bomb => 6,
        Cell::Wild => 7,
    }
}

proof fn lemma_flat_index(i: int, j: int, rows: int, cols: int)
    requires
        0 <= i < rows,
        0 <= j < cols,
    ensures
        0 <= i * cols + j < rows * cols,
{
    assert(i * cols + j < rows * cols) by (nonlinear_arith)
        requires
            0 <= i < rows,
            0 <= j < cols,
    ;
    assert(0 <= i * cols) by (nonlinear_arith)
        requires
            0 <= i,
            0 <= j < cols,
    ;
}

/// The bytes of a board: one per cell, row by row.
pub fn board_to_bytes(board: &Board) -> (r: Vec<u8>)
    requires
        board.wf(),
    ensures
        r@.len() == board.spec_rows() * board.spec_cols(),
        forall|i: int, j: int|
            0 <= i < board.spec_rows() && 0 <= j < board.spec_cols() ==> #[trigger] r@[i * board.spec_cols() + j]
                == cell_byte(board.at(i, j)),
{
    let mut bytes: Vec<u8> = Vec::new();
    let mut row: usize = 0;
    while row < board.rows()
        invariant
            board.wf(),
            row <= board.spec_rows(),
            bytes@.len() == row * board.spec_cols(),
            forall|i: int, j: int|
                0 <= i < row && 0 <= j < board.spec_cols() ==> #[trigger] bytes@[i * board.spec_cols() + j]
                    == cell_byte(board.at(i, j)),
        decreases board.spec_rows() - row,
    {
        let mut col: usize = 0;
        while col < board.cols()
            invariant
                board.wf(),
                row < board.spec_rows(),
                col <= board.spec_cols(),
                bytes@.len() == row * board.spec_cols() + col,
                forall|i: int, j: int|
                    0 <= i < row && 0 <= j < board.spec_cols() ==> #[trigger] bytes@[i * board.spec_cols() + j]
                        == cell_byte(board.at(i, j)),
                forall|j: int| 0 <= j < col ==> #[trigger] bytes@[row * board.spec_cols() + j] == cell_byte(board.at(row as int, j)),
            decreases board.spec_cols() - col,
        {
            let b = match board.get_at(row, col) {
                Some(cell) => cell_to_byte(cell),
                None => 0,
            };
            let ghost before = bytes@;
            bytes.push(b);
            proof {
                assert forall|i: int, j: int| 0 <= i < row && 0 <= j < board.spec_cols() implies #[trigger] bytes@[i
                    * board.spec_cols() + j] == cell_byte(board.at(i, j)) by {
                    lemma_flat_index(i, j, row as int, board.spec_cols() as int);
                    assert(bytes@[i * board.spec_cols() + j] == before[i * board.spec_cols() + j]);
                }
            }
            col = col + 1;
        }
        proof {
            assert((row + 1) * board.spec_cols() == row * board.spec_cols() + board.spec_cols()) by (nonlinear_arith);
        }
        row = row + 1;
    }
    bytes
}

} // verus!
