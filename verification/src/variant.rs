//! Game variants with their own board size, win length and move rules.

use vstd::prelude::*;
use crate::board::Board;
use crate::cell::Cell;
use crate::game_config::GameVariant;
use crate::player::{Player, spec_cell};

verus! {

/// A game variant: its board, its win condition and which moves it allows.
pub trait Variant {
    /// The preset this variant is reported as.
    spec fn spec_variant_type(&self) -> GameVariant;

    /// The board size, rows then columns.
    spec fn spec_dimensions(&self) -> (usize, usize);

    /// The number of connected matching cells a winning line needs.
    spec fn spec_win_length(&self) -> usize;

    /// Whether `player` may play `column` on `board`.
    spec fn spec_valid_move(&self, board: &Board, column: usize, player: Player) -> bool;

    /// The name of the variant.
    spec fn spec_name(&self) -> Seq<char>;

    /// The description of the variant.
    spec fn spec_description(&self) -> Seq<char>;

    /// The preset this variant is reported as.
    fn variant_type(&self) -> (r: GameVariant)
        ensures
            r == self.spec_variant_type(),
    ;

    /// The board size, rows then columns.
    fn board_dimensions(&self) -> (r: (usize, usize))
        ensures
            r == self.spec_dimensions(),
    ;

    /// The win length.
    fn win_length(&self) -> (r: usize)
        ensures
            r == self.spec_win_length(),
    ;

    /// Checks whether `player` may play `column` on `board`.
    fn is_valid_move(&self, board: &Board, column: usize, player: Player) -> (r: bool)
        requires
            board.wf(),
            board.spec_cols() > 0 ==> board.spec_rows() > 0,
        ensures
            r == self.spec_valid_move(board, column, player),
    ;

    /// An empty board of this variant's size.
    fn create_board(&self) -> (r: Board)
        ensures
            r.wf(),
            r.spec_rows() == self.spec_dimensions().0,
            r.spec_cols() == self.spec_dimensions().1,
            r.all_cells(Cell::Empty),
    ;

    /// Checks whether `player` has a winning run on `board`.
    fn check_win(&self, board: &Board, player: Player) -> (r: bool)
        requires
            board.wf(),
        ensures
            r == board.spec_has_winning_line(spec_cell(player), self.spec_win_length() as int),
    ;

    /// The name of the variant.
    fn name(&self) -> (r: &str)
        ensures
            r@ == self.spec_name(),
    ;

    /// The description of the variant.
    fn description(&self) -> (r: &str)
        ensures
            r@ == self.spec_description(),
    ;
}

/// A column on the board whose top cell is free.
pub open spec fn can_drop(board: &Board, column: usize) -> bool {
    column < board.spec_cols() && !board.spec_column_full(column as int)
}

fn drop_allowed(board: &Board, column: usize) -> (r: bool)
    requires
        board.wf(),
        board.spec_cols() > 0 ==> board.spec_rows() > 0,
    ensures
        r == can_drop(board, column),
{
    column < board.cols() && !board.is_column_full(column)
}

/// Standard Connect Four.
#[derive(Clone, Copy, PartialEq, Eq, Debug)]
pub struct StandardVariant;

impl Variant for StandardVariant {
    open spec fn spec_variant_type(&self) -> GameVariant {
        GameVariant::Standard
    }

    open spec fn spec_dimensions(&self) -> (usize, usize) {
        (6, 7)
    }

    open spec fn spec_win_length(&self) -> usize {
        4
    }

    open spec fn spec_valid_move(&self, board: &Board, column: usize, player: Player) -> bool {
        can_drop(board, column)
    }

    open spec fn spec_name(&self) -> Seq<char> {
        "Standard Connect Four"@
    }

    open spec fn spec_description(&self) -> Seq<char> {
        "Classic Connect Four: 6x7 board, connect 4 pieces to win"@
    }

    fn variant_type(&self) -> (r: GameVariant) {
        GameVariant::Standard
    }

    fn board_dimensions(&self) -> (r: (usize, usize)) {
        (6, 7)
    }

    fn win_length(&self) -> (r: usize) {
        4
    }

    fn is_valid_move(&self, board: &Board, column: usize, player: Player) -> (r: bool) {
        drop_allowed(board, column)
    }

    fn create_board(&self) -> (r: Board) {
        Board::standard()
    }

    fn check_win(&self, board: &Board, player: Player) -> (r: bool) {
        board.has_winning_line(player.cell(), 4)
    }

    fn name(&self) -> (r: &str) {
        "Standard Connect Four"
    }

    fn description(&self) -> (r: &str) {
        "Classic Connect Four: 6x7 board, connect 4 pieces to win"
    }
}

/// Gomoku-style play: a 10x10 board and a longer winning run.
#[derive(Clone, Copy, PartialEq, Eq, Debug)]
pub struct GomokuVariant;

impl Variant for GomokuVariant {
    open spec fn spec_variant_type(&self) -> GameVariant {
        GameVariant::Gomoku
    }

    open spec fn spec_dimensions(&self) -> (usize, usize) {
        (10, 10)
    }

    open spec fn spec_win_length(&self) -> usize {
        5
    }

    open spec fn spec_valid_move(&self, board: &Board, column: usize, player: Player) -> bool {
        can_drop(board, column)
    }

    open spec fn spec_name(&self) -> Seq<char> {
        "Gomoku"@
    }

    open spec fn spec_description(&self) -> Seq<char> {
        "10x10 board, connect 5 pieces to win"@
    }

    fn variant_type(&self) -> (r: GameVariant) {
        GameVariant::Gomoku
    }

    fn board_dimensions(&self) -> (r: (usize, usize)) {
        (10, 10)
    }

    fn win_length(&self) -> (r: usize) {
        5
    }

    fn is_valid_move(&self, board: &Board, column: usize, player: Player) -> (r: bool) {
        drop_allowed(board, column)
    }

    fn create_board(&self) -> (r: Board) {
        Board::new(10, 10)
    }

    fn check_win(&self, board: &Board, player: Player) -> (r: bool) {
        board.has_winning_line(player.cell(), 5)
    }

    fn name(&self) -> (r: &str) {
        "Gomoku"
    }

    fn description(&self) -> (r: &str) {
        "10x10 board, connect 5 pieces to win"
    }
}

/// Anti-Connect Four: the player who completes a run loses. `check_win`
/// reports whether the given player completed one.
#[derive(Clone, Copy, PartialEq, Eq, Debug)]
pub struct AntiConnectFourVariant;

impl Variant for AntiConnectFourVariant {
    open spec fn spec_variant_type(&self) -> GameVariant {
        GameVariant::Standard
    }

    open spec fn spec_dimensions(&self) -> (usize, usize) {
        (6, 7)
    }

    open spec fn spec_win_length(&self) -> usize {
        4
    }

    open spec fn spec_valid_move(&self, board: &Board, column: usize, player: Player) -> bool {
        can_drop(board, column)
    }

    open spec fn spec_name(&self) -> Seq<char> {
        "Anti-Connect Four"@
    }

    open spec fn spec_description(&self) -> Seq<char> {
        "Avoid connecting 4! The first player to connect 4 loses"@
    }

    fn variant_type(&self) -> (r: GameVariant) {
        GameVariant::Standard
    }

    fn board_dimensions(&self) -> (r: (usize, usize)) {
        (6, 7)
    }

    fn win_length(&self) -> (r: usize) {
        4
    }

    fn is_valid_move(&self, board: &Board, column: usize, player: Player) -> (r: bool) {
        drop_allowed(board, column)
    }

    fn create_board(&self) -> (r: Board) {
        Board::standard()
    }

    fn check_win(&self, board: &Board, player: Player) -> (r: bool) {
        board.has_winning_line(player.cell(), 4)
    }

    fn name(&self) -> (r: &str) {
        "Anti-Connect Four"
    }

    fn description(&self) -> (r: &str) {
        "Avoid connecting 4! The first player to connect 4 loses"
    }
}

/// PopOut: a player may also play a column whose bottom piece is their own.
#[derive(Clone, Copy, PartialEq, Eq, Debug)]
pub struct PopOutVariant;

/// The piece at the bottom edge of a column (row 0) belongs to `player`.
pub open spec fn can_pop(board: &Board, column: usize, player: Player) -> bool {
    column < board.spec_cols() && board.spec_get(0, column as int) == Some(spec_cell(player))
}

impl Variant for PopOutVariant {
    open spec fn spec_variant_type(&self) -> GameVariant {
        GameVariant::Standard
    }

    open spec fn spec_dimensions(&self) -> (usize, usize) {
        (6, 7)
    }

    open spec fn spec_win_length(&self) -> usize {
        4
    }

    open spec fn spec_valid_move(&self, board: &Board, column: usize, player: Player) -> bool {
        can_drop(board, column) || can_pop(board, column, player)
    }

    open spec fn spec_name(&self) -> Seq<char> {
        "PopOut"@
    }

    open spec fn spec_description(&self) -> Seq<char> {
        "Can either drop pieces or pop out from the bottom of a column"@
    }

    fn variant_type(&self) -> (r: GameVariant) {
        GameVariant::Standard
    }

    fn board_dimensions(&self) -> (r: (usize, usize)) {
        (6, 7)
    }

    fn win_length(&self) -> (r: usize) {
        4
    }

    fn is_valid_move(&self, board: &Board, column: usize, player: Player) -> (r: bool) {
        let drop = drop_allowed(board, column);
        let pop = column < board.cols() && board.get_at(0, column) == Some(player.cell());
        drop || pop
    }

    fn create_board(&self) -> (r: Board) {
        Board::standard()
    }

    fn check_win(&self, board: &Board, player: Player) -> (r: bool) {
        board.has_winning_line(player.cell(), 4)
    }

    fn name(&self) -> (r: &str) {
        "PopOut"
    }

    fn description(&self) -> (r: &str) {
        "Can either drop pieces or pop out from the bottom of a column"
    }
}

/// The direction pieces fall in.
#[derive(Clone, Copy, PartialEq, Eq, Debug, Hash, Structural)]
pub enum GravityDirection {
    Down,
    Left,
    Right,
    Up,
}

/// Gravity: pieces fall in a chosen direction.
#[derive(Clone, Copy, PartialEq, Eq, Debug)]
pub struct GravityVariant {
    gravity_direction: GravityDirection,
}

impl GravityVariant {
    /// The direction pieces fall in.
    pub closed spec fn spec_direction(&self) -> GravityDirection {
        self.gravity_direction
    }

    /// A gravity variant falling in `direction`.
    pub fn new(direction: GravityDirection) -> (r: Self)
        ensures
            r.spec_direction() == direction,
    {
        GravityVariant { gravity_direction: direction }
    }

    /// The direction pieces fall in.
    pub fn direction(&self) -> (r: GravityDirection)
        ensures
            r == self.spec_direction(),
    {
        self.gravity_direction
    }
}

/// The name of a gravity variant.
pub open spec fn spec_gravity_name(d: GravityDirection) -> &'static str {
    match d {
        GravityDirection::Down => "Gravity (Down)",
        GravityDirection::Left => "Gravity (Left)",
        GravityDirection::Right => "Gravity (Right)",
        GravityDirection::Up => "Gravity (Up)",
    }
}

impl Variant for GravityVariant {
    open spec fn spec_variant_type(&self) -> GameVariant {
        GameVariant::Standard
    }

    open spec fn spec_dimensions(&self) -> (usize, usize) {
        (6, 7)
    }

    open spec fn spec_win_length(&self) -> usize {
        4
    }

    open spec fn spec_valid_move(&self, board: &Board, column: usize, player: Player) -> bool {
        match self.spec_direction() {
            GravityDirection::Down | GravityDirection::Up => can_drop(board, column),
            GravityDirection::Left => column < board.spec_cols() && column > 0,
            GravityDirection::Right => column < board.spec_cols() && column + 1 < board.spec_cols(),
        }
    }

    open spec fn spec_name(&self) -> Seq<char> {
        spec_gravity_name(self.spec_direction())@
    }

    open spec fn spec_description(&self) -> Seq<char> {
        "Pieces fall in the direction of gravity"@
    }

    fn variant_type(&self) -> (r: GameVariant) {
        GameVariant::Standard
    }

    fn board_dimensions(&self) -> (r: (usize, usize)) {
        (6, 7)
    }

    fn win_length(&self) -> (r: usize) {
        4
    }

    fn is_valid_move(&self, board: &Board, column: usize, player: Player) -> (r: bool) {
        match self.gravity_direction {
            GravityDirection::Down => drop_allowed(board, column),
            GravityDirection::Left => column < board.cols() && column > 0,
            GravityDirection::Right => column < board.cols() && column < board.cols() - 1,
            GravityDirection::Up => drop_allowed(board, column),
        }
    }

    fn create_board(&self) -> (r: Board) {
        Board::standard()
    }

    fn check_win(&self, board: &Board, player: Player) -> (r: bool) {
        board.has_winning_line(player.cell(), 4)
    }

    fn name(&self) -> (r: &str) {
        match self.gravity_direction {
            GravityDirection::Down => "Gravity (Down)",
            GravityDirection::Left => "Gravity (Left)",
            GravityDirection::Right => "Gravity (Right)",
            GravityDirection::Up => "Gravity (Up)",
        }
    }

    fn description(&self) -> (r: &str) {
        "Pieces fall in the direction of gravity"
    }
}

/// One of the variants above, chosen when the program runs.
#[derive(Clone, Copy, PartialEq, Eq, Debug)]
pub enum AnyVariant {
    Standard(StandardVariant),
    Gomoku(GomokuVariant),
    AntiConnectFour(AntiConnectFourVariant),
    PopOut(PopOutVariant),
    Gravity(GravityVariant),
}

impl Variant for AnyVariant {
    open spec fn spec_variant_type(&self) -> GameVariant {
        match self {
            AnyVariant::Standard(v) => v.spec_variant_type(),
            AnyVariant::Gomoku(v) => v.spec_variant_type(),
            AnyVariant::AntiConnectFour(v) => v.spec_variant_type(),
            AnyVariant::PopOut(v) => v.spec_variant_type(),
            AnyVariant::Gravity(v) => v.spec_variant_type(),
        }
    }

    open spec fn spec_dimensions(&self) -> (usize, usize) {
        match self {
            AnyVariant::Standard(v) => v.spec_dimensions(),
            AnyVariant::Gomoku(v) => v.spec_dimensions(),
            AnyVariant::AntiConnectFour(v) => v.spec_dimensions(),
            AnyVariant::PopOut(v) => v.spec_dimensions(),
            AnyVariant::Gravity(v) => v.spec_dimensions(),
        }
    }

    open spec fn spec_win_length(&self) -> usize {
        match self {
            AnyVariant::Standard(v) => v.spec_win_length(),
            AnyVariant::Gomoku(v) => v.spec_win_length(),
            AnyVariant::AntiConnectFour(v) => v.spec_win_length(),
            AnyVariant::PopOut(v) => v.spec_win_length(),
            AnyVariant::Gravity(v) => v.spec_win_length(),
        }
    }

    open spec fn spec_valid_move(&self, board: &Board, column: usize, player: Player) -> bool {
        match self {
            AnyVariant::Standard(v) => v.spec_valid_move(board, column, player),
            AnyVariant::Gomoku(v) => v.spec_valid_move(board, column, player),
            AnyVariant::AntiConnectFour(v) => v.spec_valid_move(board, column, player),
            AnyVariant::PopOut(v) => v.spec_valid_move(board, column, player),
            AnyVariant::Gravity(v) => v.spec_valid_move(board, column, player),
        }
    }

    open spec fn spec_name(&self) -> Seq<char> {
        match self {
            AnyVariant::Standard(v) => v.spec_name(),
            AnyVariant::Gomoku(v) => v.spec_name(),
            AnyVariant::AntiConnectFour(v) => v.spec_name(),
            AnyVariant::PopOut(v) => v.spec_name(),
            AnyVariant::Gravity(v) => v.spec_name(),
        }
    }

    open spec fn spec_description(&self) -> Seq<char> {
        match self {
            AnyVariant::Standard(v) => v.spec_description(),
            AnyVariant::Gomoku(v) => v.spec_description(),
            AnyVariant::AntiConnectFour(v) => v.spec_description(),
            AnyVariant::PopOut(v) => v.spec_description(),
            AnyVariant::Gravity(v) => v.spec_description(),
        }
    }

    fn variant_type(&self) -> (r: GameVariant) {
        match self {
            AnyVariant::Standard(v) => v.variant_type(),
            AnyVariant::Gomoku(v) => v.variant_type(),
            AnyVariant::AntiConnectFour(v) => v.variant_type(),
            AnyVariant::PopOut(v) => v.variant_type(),
            AnyVariant::Gravity(v) => v.variant_type(),
        }
    }

    fn board_dimensions(&self) -> (r: (usize, usize)) {
        match self {
            AnyVariant::Standard(v) => v.board_dimensions(),
            AnyVariant::Gomoku(v) => v.board_dimensions(),
            AnyVariant::AntiConnectFour(v) => v.board_dimensions(),
            AnyVariant::PopOut(v) => v.board_dimensions(),
            AnyVariant::Gravity(v) => v.board_dimensions(),
        }
    }

    fn win_length(&self) -> (r: usize) {
        match self {
            AnyVariant::Standard(v) => v.win_length(),
            AnyVariant::Gomoku(v) => v.win_length(),
            AnyVariant::AntiConnectFour(v) => v.win_length(),
            AnyVariant::PopOut(v) => v.win_length(),
            AnyVariant::Gravity(v) => v.win_length(),
        }
    }

    fn is_valid_move(&self, board: &Board, column: usize, player: Player) -> (r: bool) {
        match self {
            AnyVariant::Standard(v) => v.is_valid_move(board, column, player),
            AnyVariant::Gomoku(v) => v.is_valid_move(board, column, player),
            AnyVariant::AntiConnectFour(v) => v.is_valid_move(board, column, player),
            AnyVariant::PopOut(v) => v.is_valid_move(board, column, player),
            AnyVariant::Gravity(v) => v.is_valid_move(board, column, player),
        }
    }

    fn create_board(&self) -> (r: Board) {
        match self {
            AnyVariant::Standard(v) => v.create_board(),
            AnyVariant::Gomoku(v) => v.create_board(),
            AnyVariant::AntiConnectFour(v) => v.create_board(),
            AnyVariant::PopOut(v) => v.create_board(),
            AnyVariant::Gravity(v) => v.create_board(),
        }
    }

    fn check_win(&self, board: &Board, player: Player) -> (r: bool) {
        match self {
            AnyVariant::Standard(v) => v.check_win(board, player),
            AnyVariant::Gomoku(v) => v.check_win(board, player),
            AnyVariant::AntiConnectFour(v) => v.check_win(board, player),
            AnyVariant::PopOut(v) => v.check_win(board, player),
            AnyVariant::Gravity(v) => v.check_win(board, player),
        }
    }

    fn name(&self) -> (r: &str) {
        match self {
            AnyVariant::Standard(v) => v.name(),
            AnyVariant::Gomoku(v) => v.name(),
            AnyVariant::AntiConnectFour(v) => v.name(),
            AnyVariant::PopOut(v) => v.name(),
            AnyVariant::Gravity(v) => v.name(),
        }
    }

    fn description(&self) -> (r: &str) {
        match self {
            AnyVariant::Standard(v) => v.description(),
            AnyVariant::Gomoku(v) => v.description(),
            AnyVariant::AntiConnectFour(v) => v.description(),
            AnyVariant::PopOut(v) => v.description(),
            AnyVariant::Gravity(v) => v.description(),
        }
    }
}

/// Builds variants by preset or by rule set.
pub struct VariantFactory;

impl VariantFactory {
    /// The variant for a preset: Gomoku for `Gomoku`, standard play for any other.
    pub fn create(variant: GameVariant) -> (r: AnyVariant)
        ensures
            r == (if variant == GameVariant::Gomoku {
                AnyVariant::Gomoku(GomokuVariant)
            } else {
                AnyVariant::Standard(StandardVariant)
            }),
    {
        match variant {
            GameVariant::Gomoku => AnyVariant::Gomoku(GomokuVariant),
            _ => AnyVariant::Standard(StandardVariant),
        }
    }

    /// The Anti-Connect Four variant.
    pub fn create_anti() -> (r: AnyVariant)
        ensures
            r == AnyVariant::AntiConnectFour(AntiConnectFourVariant),
    {
        AnyVariant::AntiConnectFour(AntiConnectFourVariant)
    }

    /// The PopOut variant.
    pub fn create_popout() -> (r: AnyVariant)
        ensures
            r == AnyVariant::PopOut(PopOutVariant),
    {
        AnyVariant::PopOut(PopOutVariant)
    }

    /// A gravity variant falling in `direction`.
    pub fn create_gravity(direction: GravityDirection) -> (r: AnyVariant)
        ensures
            r is Gravity && r->Gravity_0.spec_direction() == direction,
    {
        AnyVariant::Gravity(GravityVariant::new(direction))
    }
}

/// The text shown for a variant: "<name>: <description>".
pub fn variant_to_string(v: &dyn Variant) -> (r: String)
    ensures
        r@ == v.spec_name() + ": "@ + v.spec_description(),
{
    let mut s = String::from_str(v.name());
    s.append(": ");
    s.append(v.description());
    s
}

} // verus!
