//! Board coordinates: positions, offsets and the eight compass directions.

use vstd::prelude::*;
use crate::text::{decimal, spec_decimal};

verus! {

/// A position on the game board: a row (counted from the top) and a column.
#[derive(Clone, Copy, PartialEq, Eq, Debug, Hash, PartialOrd, Ord, Structural)]
pub struct Position {
    pub row: usize,
    pub col: usize,
}

/// The value that `u as isize` has: the two's complement reading of the bits.
pub open spec fn signed_of(u: usize) -> int {
    if u <= isize::MAX {
        u as int
    } else {
        u - (usize::MAX + 1)
    }
}

/// Computes `u as isize` without a cast that Verus reads as truncation.
fn as_signed(u: usize) -> (r: isize)
    ensures
        r == signed_of(u),
{
    if u <= isize::MAX as usize {
        u as isize
    } else {
        let t: usize = u - (isize::MAX as usize) - 1;
        (t as isize) + isize::MIN
    }
}

impl Position {
    /// Creates a new position at the given row and column.
    pub fn new(row: usize, col: usize) -> (r: Self)
        ensures
            r == (Position { row, col }),
    {
        Position { row, col }
    }

    /// The position at row 0, column 0 (top-left).
    pub fn origin() -> (r: Self)
        ensures
            r == (Position { row: 0, col: 0 }),
    {
        Position::new(0, 0)
    }

    /// Returns true if this position is inside a board of the given size.
    pub fn is_valid(&self, rows: usize, cols: usize) -> (r: bool)
        ensures
            r == (self.row < rows && self.col < cols),
    {
        self.row < rows && self.col < cols
    }

    /// The position above this one (row - 1), if there is a row above.
    pub fn above(&self) -> (r: Option<Self>)
        ensures
            r == (if self.row > 0 {
                Some(Position { row: (self.row - 1) as usize, col: self.col })
            } else {
                None::<Position>
            }),
    {
        if self.row > 0 {
            Some(Position::new(self.row - 1, self.col))
        } else {
            None
        }
    }

    /// The position below this one (row + 1).
    pub fn below(&self) -> (r: Position)
        requires
            self.row < usize::MAX,
        ensures
            r == (Position { row: (self.row + 1) as usize, col: self.col }),
    {
        Position::new(self.row + 1, self.col)
    }

    /// The position to the left of this one (col - 1), if there is one.
    pub fn left(&self) -> (r: Option<Self>)
        ensures
            r == (if self.col > 0 {
                Some(Position { row: self.row, col: (self.col - 1) as usize })
            } else {
                None::<Position>
            }),
    {
        if self.col > 0 {
            Some(Position::new(self.row, self.col - 1))
        } else {
            None
        }
    }

    /// The position to the right of this one (col + 1).
    pub fn right(&self) -> (r: Position)
        requires
            self.col < usize::MAX,
        ensures
            r == (Position { row: self.row, col: (self.col + 1) as usize }),
    {
        Position::new(self.row, self.col + 1)
    }

    /// The position diagonally up-left, if there is one.
    pub fn up_left(&self) -> (r: Option<Self>)
        ensures
            r == (if self.row > 0 && self.col > 0 {
                Some(Position { row: (self.row - 1) as usize, col: (self.col - 1) as usize })
            } else {
                None::<Position>
            }),
    {
        match self.above() {
            Some(p) => p.left(),
            None => None,
        }
    }

    /// The position diagonally up-right, if there is a row above.
    pub fn up_right(&self) -> (r: Option<Self>)
        requires
            self.row > 0 ==> self.col < usize::MAX,
        ensures
            r == (if self.row > 0 {
                Some(Position { row: (self.row - 1) as usize, col: (self.col + 1) as usize })
            } else {
                None::<Position>
            }),
    {
        match self.above() {
            Some(p) => Some(p.right()),
            None => None,
        }
    }

    /// The position diagonally down-left, if there is a column to the left.
    pub fn down_left(&self) -> (r: Option<Self>)
        requires
            self.row < usize::MAX,
        ensures
            r == (if self.col > 0 {
                Some(Position { row: (self.row + 1) as usize, col: (self.col - 1) as usize })
            } else {
                None::<Position>
            }),
    {
        let p = Position::new(self.row + 1, self.col);
        if p.col > 0 {
            Some(Position::new(p.row, p.col - 1))
        } else {
            None
        }
    }

    /// The position diagonally down-right.
    pub fn down_right(&self) -> (r: Position)
        requires
            self.row < usize::MAX,
            self.col < usize::MAX,
        ensures
            r == (Position { row: (self.row + 1) as usize, col: (self.col + 1) as usize }),
    {
        Position::new(self.row + 1, self.col + 1)
    }

    /// Moves this position one step in the given direction.
    pub fn move_direction(&self, direction: Direction) -> (r: Option<Self>)
        requires
            apply_in_range(direction, *self),
        ensures
            r == spec_apply(direction, *self),
    {
        direction.apply(self)
    }

    /// All neighbours of this position: above, below, left, right, up-left,
    /// up-right, down-left and down-right, leaving out those that would have a
    /// negative coordinate.
    pub fn neighbors(&self) -> (r: Vec<Position>)
        requires
            self.row < usize::MAX,
            self.col < usize::MAX,
        ensures
            r@ == spec_neighbors(*self),
    {
        let mut neighbors = Vec::with_capacity(8);
        if let Some(pos) = self.above() {
            neighbors.push(pos);
        }
        neighbors.push(self.below());
        if let Some(pos) = self.left() {
            neighbors.push(pos);
        }
        neighbors.push(self.right());
        if let Some(pos) = self.up_left() {
            neighbors.push(pos);
        }
        if let Some(pos) = self.up_right() {
            neighbors.push(pos);
        }
        if let Some(pos) = self.down_left() {
            neighbors.push(pos);
        }
        neighbors.push(self.down_right());
        neighbors
    }

    /// The orthogonal neighbours (above, below, left, right), leaving out
    /// those that would have a negative coordinate.
    pub fn orthogonal_neighbors(&self) -> (r: Vec<Position>)
        requires
            self.row < usize::MAX,
            self.col < usize::MAX,
        ensures
            r@ == spec_orthogonal_neighbors(*self),
    {
        let mut neighbors = Vec::with_capacity(4);
        if let Some(pos) = self.above() {
            neighbors.push(pos);
        }
        neighbors.push(self.below());
        if let Some(pos) = self.left() {
            neighbors.push(pos);
        }
        neighbors.push(self.right());
        neighbors
    }

    /// The diagonal neighbours (up-left, up-right, down-left, down-right),
    /// leaving out those that would have a negative coordinate.
    pub fn diagonal_neighbors(&self) -> (r: Vec<Position>)
        requires
            self.row < usize::MAX,
            self.col < usize::MAX,
        ensures
            r@ == spec_diagonal_neighbors(*self),
    {
        let mut neighbors = Vec::with_capacity(4);
        if let Some(pos) = self.up_left() {
            neighbors.push(pos);
        }
        if let Some(pos) = self.up_right() {
            neighbors.push(pos);
        }
        if let Some(pos) = self.down_left() {
            neighbors.push(pos);
        }
        neighbors.push(self.down_right());
        neighbors
    }

    /// The Manhattan distance to another position.
    pub fn manhattan_distance(&self, other: &Self) -> (r: usize)
        requires
            spec_abs_diff(self.row as int, other.row as int) + spec_abs_diff(self.col as int, other.col as int)
                <= usize::MAX,
        ensures
            r == spec_abs_diff(self.row as int, other.row as int) + spec_abs_diff(self.col as int, other.col as int),
    {
        let dr = if self.row >= other.row { self.row - other.row } else { other.row - self.row };
        let dc = if self.col >= other.col { self.col - other.col } else { other.col - self.col };
        dr + dc
    }

    /// The row and column as a tuple.
    pub fn as_tuple(&self) -> (r: (usize, usize))
        ensures
            r == (self.row, self.col),
    {
        (self.row, self.col)
    }

    /// The index of this position in a row-major flattened array.
    pub fn flatten(&self, cols: usize) -> (r: usize)
        requires
            self.row * cols + self.col <= usize::MAX,
        ensures
            r == self.row * cols + self.col,
    {
        proof {
            assert(self.row * cols <= self.row * cols + self.col);
        }
        self.row * cols + self.col
    }

    /// The position of an index in a row-major flattened array.
    pub fn from_flat(index: usize, cols: usize) -> (r: Self)
        requires
            cols > 0,
        ensures
            r == (Position { row: index / cols, col: index % cols }),
    {
        Position::new(index / cols, index % cols)
    }

    /// The text shown for a position: "(row, col)".
    pub fn to_string(&self) -> (r: String)
        ensures
            r@ == "("@ + spec_decimal(self.row as nat) + ", "@ + spec_decimal(self.col as nat) + ")"@,
    {
        let mut s = String::from_str("(");
        let a = decimal(self.row as u64);
        s.append(a.as_str());
        s.append(", ");
        let b = decimal(self.col as u64);
        s.append(b.as_str());
        s.append(")");
        s
    }

    /// Adds an offset with wrap-around on each coordinate.
    pub fn add_offset(self, offset: Offset) -> (r: Position)
        ensures
            r.row as int == spec_wrap_add(self.row, offset.row_offset),
            r.col as int == spec_wrap_add(self.col, offset.col_offset),
    {
        Position::new(self.row.wrapping_add_signed(offset.row_offset), self.col.wrapping_add_signed(offset.col_offset))
    }

    /// The offset from `other` to this position, for coordinates that fit in `isize`.
    pub fn sub_position(self, other: Position) -> (r: Offset)
        requires
            self.row <= isize::MAX,
            self.col <= isize::MAX,
            other.row <= isize::MAX,
            other.col <= isize::MAX,
        ensures
            r.row_offset == self.row - other.row,
            r.col_offset == self.col - other.col,
    {
        Offset::new((self.row as isize) - (other.row as isize), (self.col as isize) - (other.col as isize))
    }
}

/// `u.wrapping_add_signed(d)`: the sum taken modulo the size of `usize`.
pub open spec fn spec_wrap_add(u: usize, d: isize) -> int {
    (u + d) % (usize::MAX + 1)
}

/// The absolute difference of two integers.
pub open spec fn spec_abs_diff(a: int, b: int) -> int {
    if a >= b { a - b } else { b - a }
}

/// The neighbours listed by `Position::neighbors`, in order.
pub open spec fn spec_neighbors(p: Position) -> Seq<Position> {
    let up = if p.row > 0 { seq![Position { row: (p.row - 1) as usize, col: p.col }] } else { seq![] };
    let left = if p.col > 0 { seq![Position { row: p.row, col: (p.col - 1) as usize }] } else { seq![] };
    let ul = if p.row > 0 && p.col > 0 {
        seq![Position { row: (p.row - 1) as usize, col: (p.col - 1) as usize }]
    } else {
        seq![]
    };
    let ur = if p.row > 0 { seq![Position { row: (p.row - 1) as usize, col: (p.col + 1) as usize }] } else { seq![] };
    let dl = if p.col > 0 { seq![Position { row: (p.row + 1) as usize, col: (p.col - 1) as usize }] } else { seq![] };
    up + seq![Position { row: (p.row + 1) as usize, col: p.col }] + left + seq![
        Position { row: p.row, col: (p.col + 1) as usize },
    ] + ul + ur + dl + seq![Position { row: (p.row + 1) as usize, col: (p.col + 1) as usize }]
}

/// The orthogonal neighbours listed by `Position::orthogonal_neighbors`, in order.
pub open spec fn spec_orthogonal_neighbors(p: Position) -> Seq<Position> {
    let up = if p.row > 0 { seq![Position { row: (p.row - 1) as usize, col: p.col }] } else { seq![] };
    let left = if p.col > 0 { seq![Position { row: p.row, col: (p.col - 1) as usize }] } else { seq![] };
    up + seq![Position { row: (p.row + 1) as usize, col: p.col }] + left + seq![
        Position { row: p.row, col: (p.col + 1) as usize },
    ]
}

/// The diagonal neighbours listed by `Position::diagonal_neighbors`, in order.
pub open spec fn spec_diagonal_neighbors(p: Position) -> Seq<Position> {
    let ul = if p.row > 0 && p.col > 0 {
        seq![Position { row: (p.row - 1) as usize, col: (p.col - 1) as usize }]
    } else {
        seq![]
    };
    let ur = if p.row > 0 { seq![Position { row: (p.row - 1) as usize, col: (p.col + 1) as usize }] } else { seq![] };
    let dl = if p.col > 0 { seq![Position { row: (p.row + 1) as usize, col: (p.col - 1) as usize }] } else { seq![] };
    ul + ur + dl + seq![Position { row: (p.row + 1) as usize, col: (p.col + 1) as usize }]
}

/// Flattening a position inside a row of `cols` columns and reading it back
/// gives the position again.
pub proof fn lemma_flatten_roundtrip(p: Position, cols: usize)
    requires
        cols > 0,
        p.col < cols,
    ensures
        (p.row * cols + p.col) / (cols as int) == p.row,
        (p.row * cols + p.col) % (cols as int) == p.col,
{
    vstd::arithmetic::div_mod::lemma_fundamental_div_mod_converse(
        p.row * cols + p.col,
        cols as int,
        p.row as int,
        p.col as int,
    );
}

/// The magnitude of a signed number, as an unsigned one.
fn unsigned_abs(x: isize) -> (r: usize)
    ensures
        r == spec_abs_diff(x as int, 0),
{
    if x >= 0 {
        x as usize
    } else if x == isize::MIN {
        (isize::MAX as usize) + 1
    } else {
        (-x) as usize
    }
}

/// A 2D offset that can be applied to a position.
#[derive(Clone, Copy, PartialEq, Eq, Debug, Hash, Structural)]
pub struct Offset {
    pub row_offset: isize,
    pub col_offset: isize,
}

impl Offset {
    /// Creates an offset.
    pub fn new(row_offset: isize, col_offset: isize) -> (r: Self)
        ensures
            r == (Offset { row_offset, col_offset }),
    {
        Offset { row_offset, col_offset }
    }

    /// The zero offset.
    pub fn zero() -> (r: Self)
        ensures
            r == (Offset { row_offset: 0, col_offset: 0 }),
    {
        Offset::new(0, 0)
    }

    /// One row up.
    pub fn up() -> (r: Self)
        ensures
            r == (Offset { row_offset: -1isize, col_offset: 0 }),
    {
        Offset::new(-1, 0)
    }

    /// One row down.
    pub fn down() -> (r: Self)
        ensures
            r == (Offset { row_offset: 1, col_offset: 0 }),
    {
        Offset::new(1, 0)
    }

    /// One column left.
    pub fn left() -> (r: Self)
        ensures
            r == (Offset { row_offset: 0, col_offset: -1isize }),
    {
        Offset::new(0, -1)
    }

    /// One column right.
    pub fn right() -> (r: Self)
        ensures
            r == (Offset { row_offset: 0, col_offset: 1 }),
    {
        Offset::new(0, 1)
    }

    /// One step up and left.
    pub fn up_left() -> (r: Self)
        ensures
            r == (Offset { row_offset: -1isize, col_offset: -1isize }),
    {
        Offset::new(-1, -1)
    }

    /// One step up and right.
    pub fn up_right() -> (r: Self)
        ensures
            r == (Offset { row_offset: -1isize, col_offset: 1 }),
    {
        Offset::new(-1, 1)
    }

    /// One step down and left.
    pub fn down_left() -> (r: Self)
        ensures
            r == (Offset { row_offset: 1, col_offset: -1isize }),
    {
        Offset::new(1, -1)
    }

    /// One step down and right.
    pub fn down_right() -> (r: Self)
        ensures
            r == (Offset { row_offset: 1, col_offset: 1 }),
    {
        Offset::new(1, 1)
    }

    /// The Manhattan length of the offset.
    pub fn manhattan(&self) -> (r: usize)
        requires
            spec_abs_diff(self.row_offset as int, 0) + spec_abs_diff(self.col_offset as int, 0) <= usize::MAX,
        ensures
            r == spec_abs_diff(self.row_offset as int, 0) + spec_abs_diff(self.col_offset as int, 0),
    {
        unsigned_abs(self.row_offset) + unsigned_abs(self.col_offset)
    }
}

/// One of the 8 cardinal and diagonal directions.
#[derive(Clone, Copy, PartialEq, Eq, Debug, Hash, Structural)]
pub enum Direction {
    North,
    Northeast,
    East,
    Southeast,
    South,
    Southwest,
    West,
    Northwest,
}

/// The unit offset of each direction (north is up, towards row 0).
pub open spec fn spec_offset(d: Direction) -> Offset {
    match d {
        Direction::North => Offset { row_offset: -1isize, col_offset: 0 },
        Direction::Northeast => Offset { row_offset: -1isize, col_offset: 1 },
        Direction::East => Offset { row_offset: 0, col_offset: 1 },
        Direction::Southeast => Offset { row_offset: 1, col_offset: 1 },
        Direction::South => Offset { row_offset: 1, col_offset: 0 },
        Direction::Southwest => Offset { row_offset: 1, col_offset: -1isize },
        Direction::West => Offset { row_offset: 0, col_offset: -1isize },
        Direction::Northwest => Offset { row_offset: -1isize, col_offset: -1isize },
    }
}

/// The opposite of each direction.
pub open spec fn spec_opposite(d: Direction) -> Direction {
    match d {
        Direction::North => Direction::South,
        Direction::South => Direction::North,
        Direction::East => Direction::West,
        Direction::West => Direction::East,
        Direction::Northeast => Direction::Southwest,
        Direction::Southwest => Direction::Northeast,
        Direction::Northwest => Direction::Southeast,
        Direction::Southeast => Direction::Northwest,
    }
}

/// Applying a direction does not overflow `isize` when the coordinates are
/// read as signed numbers.
pub open spec fn apply_in_range(d: Direction, pos: Position) -> bool {
    let o = spec_offset(d);
    &&& isize::MIN <= signed_of(pos.row) + o.row_offset <= isize::MAX
    &&& isize::MIN <= signed_of(pos.col) + o.col_offset <= isize::MAX
}

/// The position one step away in a direction, when neither coordinate
/// becomes negative (coordinates read as signed numbers, as the step is
/// taken in `isize`).
pub open spec fn spec_apply(d: Direction, pos: Position) -> Option<Position> {
    let o = spec_offset(d);
    let r = signed_of(pos.row) + o.row_offset;
    let c = signed_of(pos.col) + o.col_offset;
    if r >= 0 && c >= 0 {
        Some(Position { row: r as usize, col: c as usize })
    } else {
        None
    }
}

impl Direction {
    /// All 8 directions, clockwise from north.
    pub fn all() -> (r: [Direction; 8])
        ensures
            r@ == seq![
                Direction::North,
                Direction::Northeast,
                Direction::East,
                Direction::Southeast,
                Direction::South,
                Direction::Southwest,
                Direction::West,
                Direction::Northwest,
            ],
    {
        [
            Direction::North,
            Direction::Northeast,
            Direction::East,
            Direction::Southeast,
            Direction::South,
            Direction::Southwest,
            Direction::West,
            Direction::Northwest,
        ]
    }

    /// The 4 cardinal directions.
    pub fn cardinal() -> (r: [Direction; 4])
        ensures
            r@ == seq![Direction::North, Direction::East, Direction::South, Direction::West],
    {
        [Direction::North, Direction::East, Direction::South, Direction::West]
    }

    /// The 4 diagonal directions.
    pub fn diagonal() -> (r: [Direction; 4])
        ensures
            r@ == seq![Direction::Northeast, Direction::Southeast, Direction::Southwest, Direction::Northwest],
    {
        [Direction::Northeast, Direction::Southeast, Direction::Southwest, Direction::Northwest]
    }

    /// The unit offset of this direction.
    pub fn offset(&self) -> (r: Offset)
        ensures
            r == spec_offset(*self),
    {
        match self {
            Direction::North => Offset::up(),
            Direction::Northeast => Offset::up_right(),
            Direction::East => Offset::right(),
            Direction::Southeast => Offset::down_right(),
            Direction::South => Offset::down(),
            Direction::Southwest => Offset::down_left(),
            Direction::West => Offset::left(),
            Direction::Northwest => Offset::up_left(),
        }
    }

    /// Applies this direction to a position: the step is taken on the
    /// coordinates read as `isize`, and gives nothing if either becomes negative.
    pub fn apply(&self, pos: &Position) -> (r: Option<Position>)
        requires
            apply_in_range(*self, *pos),
        ensures
            r == spec_apply(*self, *pos),
    {
        let offset = self.offset();
        let new_row = as_signed(pos.row) + offset.row_offset;
        let new_col = as_signed(pos.col) + offset.col_offset;
        if new_row >= 0 && new_col >= 0 {
            Some(Position::new(new_row as usize, new_col as usize))
        } else {
            None
        }
    }

    /// Returns the opposite direction.
    pub fn opposite(&self) -> (r: Direction)
        ensures
            r == spec_opposite(*self),
    {
        match self {
            Direction::North => Direction::South,
            Direction::South => Direction::North,
            Direction::East => Direction::West,
            Direction::West => Direction::East,
            Direction::Northeast => Direction::Southwest,
            Direction::Southwest => Direction::Northeast,
            Direction::Northwest => Direction::Southeast,
            Direction::Southeast => Direction::Northwest,
        }
    }

    /// Returns true if this is a cardinal direction.
    pub fn is_cardinal(&self) -> (r: bool)
        ensures
            r == (spec_offset(*self).row_offset == 0 || spec_offset(*self).col_offset == 0),
    {
        matches!(self, Direction::North | Direction::South | Direction::East | Direction::West)
    }

    /// Returns true if this is a diagonal direction.
    pub fn is_diagonal(&self) -> (r: bool)
        ensures
            r == (spec_offset(*self).row_offset != 0 && spec_offset(*self).col_offset != 0),
    {
        matches!(self, Direction::Northeast | Direction::Southeast | Direction::Southwest | Direction::Northwest)
    }

    /// The direction's name.
    pub fn name(&self) -> (r: &'static str)
        ensures
            r@ == spec_direction_name(*self)@,
    {
        match self {
            Direction::North => "North",
            Direction::Northeast => "Northeast",
            Direction::East => "East",
            Direction::Southeast => "Southeast",
            Direction::South => "South",
            Direction::Southwest => "Southwest",
            Direction::West => "West",
            Direction::Northwest => "Northwest",
        }
    }
}

/// Each direction's name.
pub open spec fn spec_direction_name(d: Direction) -> &'static str {
    match d {
        Direction::North => "North",
        Direction::Northeast => "Northeast",
        Direction::East => "East",
        Direction::Southeast => "Southeast",
        Direction::South => "South",
        Direction::Southwest => "Southwest",
        Direction::West => "West",
        Direction::Northwest => "Northwest",
    }
}

/// The opposite direction has the negated offset, and taking the opposite
/// twice gives the direction back.
pub proof fn lemma_opposite_negates(d: Direction)
    ensures
        spec_opposite(spec_opposite(d)) == d,
        spec_offset(spec_opposite(d)).row_offset == -spec_offset(d).row_offset,
        spec_offset(spec_opposite(d)).col_offset == -spec_offset(d).col_offset,
{
}

/// Stepping in a direction and then in the opposite direction comes back to
/// the start, for positions whose coordinates fit in `isize`.
pub proof fn lemma_apply_then_opposite(d: Direction, pos: Position)
    requires
        pos.row < isize::MAX,
        pos.col < isize::MAX,
        spec_apply(d, pos) is Some,
    ensures
        apply_in_range(spec_opposite(d), spec_apply(d, pos).unwrap()),
        spec_apply(spec_opposite(d), spec_apply(d, pos).unwrap()) == Some(pos),
{
}

impl core::ops::Add<Direction> for Position {
    type Output = Option<Position>;

    fn add(self, direction: Direction) -> (r: Option<Position>) {
        direction.apply(&self)
    }
}

impl vstd::std_specs::ops::AddSpecImpl<Direction> for Position {
    open spec fn obeys_add_spec() -> bool {
        true
    }

    open spec fn add_req(self, direction: Direction) -> bool {
        apply_in_range(direction, self)
    }

    open spec fn add_spec(self, direction: Direction) -> Option<Position> {
        spec_apply(direction, self)
    }
}

impl core::ops::Add<Offset> for Position {
    type Output = Position;

    fn add(self, offset: Offset) -> (r: Position) {
        self.add_offset(offset)
    }
}

impl vstd::std_specs::ops::AddSpecImpl<Offset> for Position {
    open spec fn obeys_add_spec() -> bool {
        true
    }

    open spec fn add_req(self, offset: Offset) -> bool {
        true
    }

    open spec fn add_spec(self, offset: Offset) -> Position {
        Position {
            row: spec_wrap_add(self.row, offset.row_offset) as usize,
            col: spec_wrap_add(self.col, offset.col_offset) as usize,
        }
    }
}

impl core::ops::Sub for Position {
    type Output = Offset;

    fn sub(self, other: Position) -> (r: Offset) {
        self.sub_position(other)
    }
}

impl vstd::std_specs::ops::SubSpecImpl for Position {
    open spec fn obeys_sub_spec() -> bool {
        true
    }

    open spec fn sub_req(self, other: Position) -> bool {
        &&& self.row <= isize::MAX
        &&& self.col <= isize::MAX
        &&& other.row <= isize::MAX
        &&& other.col <= isize::MAX
    }

    open spec fn sub_spec(self, other: Position) -> Offset {
        Offset { row_offset: (self.row - other.row) as isize, col_offset: (self.col - other.col) as isize }
    }
}

} // verus!
