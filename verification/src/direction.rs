//! The eight compass directions of the game grid, with their row and column
//! deltas and horizontal and vertical components.

use vstd::prelude::*;
use crate::text::{str_eq, concat, to_lowercase, spec_to_lowercase};

verus! {

/// The 8 cardinal and ordinal directions on a 2D grid.
#[derive(Clone, Copy, PartialEq, Eq, Debug, Hash, PartialOrd, Ord, Structural)]
pub enum Direction {
    /// North (up)
    North,
    /// Northeast (up and right)
    Northeast,
    /// East (right)
    East,
    /// Southeast (down and right)
    Southeast,
    /// South (down)
    South,
    /// Southwest (down and left)
    Southwest,
    /// West (left)
    West,
    /// Northwest (up and left)
    Northwest,
}

/// The directions in their fixed order, clockwise from north.
pub open spec fn spec_all() -> Seq<Direction> {
    seq![
        Direction::North,
        Direction::Northeast,
        Direction::East,
        Direction::Southeast,
        Direction::South,
        Direction::Southwest,
        Direction::West,
        Direction::Northwest,
    ]
}

/// The row delta of each direction (north is towards row 0).
pub open spec fn spec_row_delta(d: Direction) -> int {
    match d {
        Direction::North | Direction::Northeast | Direction::Northwest => -1,
        Direction::South | Direction::Southeast | Direction::Southwest => 1,
        Direction::East | Direction::West => 0,
    }
}

/// The column delta of each direction.
pub open spec fn spec_col_delta(d: Direction) -> int {
    match d {
        Direction::East | Direction::Northeast | Direction::Southeast => 1,
        Direction::West | Direction::Northwest | Direction::Southwest => -1,
        Direction::North | Direction::South => 0,
    }
}

/// The combination of two directions: the direction of the sum of their
/// deltas when that is a unit step, the first direction when they cancel
/// out, and none otherwise.
pub open spec fn spec_combine(a: Direction, b: Direction) -> Option<Direction> {
    let dr = spec_row_delta(a) + spec_row_delta(b);
    let dc = spec_col_delta(a) + spec_col_delta(b);
    if dr == 0 && dc == 0 { Some(a) } else { spec_from_deltas(dr, dc) }
}

/// The direction with given deltas, if they are a unit step.
pub open spec fn spec_from_deltas(dr: int, dc: int) -> Option<Direction> {
    if dr == -1 && dc == 0 {
        Some(Direction::North)
    } else if dr == -1 && dc == 1 {
        Some(Direction::Northeast)
    } else if dr == 0 && dc == 1 {
        Some(Direction::East)
    } else if dr == 1 && dc == 1 {
        Some(Direction::Southeast)
    } else if dr == 1 && dc == 0 {
        Some(Direction::South)
    } else if dr == 1 && dc == -1 {
        Some(Direction::Southwest)
    } else if dr == 0 && dc == -1 {
        Some(Direction::West)
    } else if dr == -1 && dc == -1 {
        Some(Direction::Northwest)
    } else {
        None
    }
}

/// The opposite (180 degrees) of each direction.
pub open spec fn spec_opposite(d: Direction) -> Direction {
    match d {
        Direction::North => Direction::South,
        Direction::South => Direction::North,
        Direction::East => Direction::West,
        Direction::West => Direction::East,
        Direction::Northeast => Direction::Southwest,
        Direction::Southwest => Direction::Northeast,
        Direction::Northwest => Direction::Southeast,
        Direction::Southeast => Direction::Northwest,
    }
}

/// Each direction rotated 90 degrees clockwise.
pub open spec fn spec_clockwise(d: Direction) -> Direction {
    match d {
        Direction::North => Direction::East,
        Direction::East => Direction::South,
        Direction::South => Direction::West,
        Direction::West => Direction::North,
        Direction::Northeast => Direction::Southeast,
        Direction::Southeast => Direction::Southwest,
        Direction::Southwest => Direction::Northwest,
        Direction::Northwest => Direction::Northeast,
    }
}

/// Each direction rotated 90 degrees counter-clockwise.
pub open spec fn spec_counter_clockwise(d: Direction) -> Direction {
    match d {
        Direction::North => Direction::West,
        Direction::West => Direction::South,
        Direction::South => Direction::East,
        Direction::East => Direction::North,
        Direction::Northeast => Direction::Northwest,
        Direction::Northwest => Direction::Southwest,
        Direction::Southwest => Direction::Southeast,
        Direction::Southeast => Direction::Northeast,
    }
}

/// The direction that a (lowercased) token names, if any.
pub open spec fn spec_parse_direction(s: Seq<char>) -> Option<Direction> {
    if s == "n"@ || s == "north"@ || s == "up"@ || s == "↑"@ {
        Some(Direction::North)
    } else if s == "ne"@ || s == "northeast"@ || s == "up-right"@ || s == "↗"@ {
        Some(Direction::Northeast)
    } else if s == "e"@ || s == "east"@ || s == "right"@ || s == "→"@ {
        Some(Direction::East)
    } else if s == "se"@ || s == "southeast"@ || s == "down-right"@ || s == "↘"@ {
        Some(Direction::Southeast)
    } else if s == "s"@ || s == "south"@ || s == "down"@ || s == "↓"@ {
        Some(Direction::South)
    } else if s == "sw"@ || s == "southwest"@ || s == "down-left"@ || s == "↙"@ {
        Some(Direction::Southwest)
    } else if s == "w"@ || s == "west"@ || s == "left"@ || s == "←"@ {
        Some(Direction::West)
    } else if s == "nw"@ || s == "northwest"@ || s == "up-left"@ || s == "↖"@ {
        Some(Direction::Northwest)
    } else {
        None
    }
}

/// The arrow character of each direction.
pub open spec fn spec_arrow(d: Direction) -> char {
    match d {
        Direction::North => '↑',
        Direction::Northeast => '↗',
        Direction::East => '→',
        Direction::Southeast => '↘',
        Direction::South => '↓',
        Direction::Southwest => '↙',
        Direction::West => '←',
        Direction::Northwest => '↖',
    }
}

/// The arrow of each direction, as text.
pub open spec fn spec_arrow_str(d: Direction) -> &'static str {
    match d {
        Direction::North => "↑",
        Direction::Northeast => "↗",
        Direction::East => "→",
        Direction::Southeast => "↘",
        Direction::South => "↓",
        Direction::Southwest => "↙",
        Direction::West => "←",
        Direction::Northwest => "↖",
    }
}

/// The index of a direction in `spec_all()`.
pub open spec fn spec_index(d: Direction) -> int {
    match d {
        Direction::North => 0,
        Direction::Northeast => 1,
        Direction::East => 2,
        Direction::Southeast => 3,
        Direction::South => 4,
        Direction::Southwest => 5,
        Direction::West => 6,
        Direction::Northwest => 7,
    }
}

impl Direction {
    /// All 8 directions.
    pub fn all() -> (r: [Direction; 8])
        ensures
            r@ == spec_all(),
    {
        [
            Direction::North,
            Direction::Northeast,
            Direction::East,
            Direction::Southeast,
            Direction::South,
            Direction::Southwest,
            Direction::West,
            Direction::Northwest,
        ]
    }

    /// The 4 cardinal directions (N, E, S, W).
    pub fn cardinal() -> (r: [Direction; 4])
        ensures
            r@ == seq![Direction::North, Direction::East, Direction::South, Direction::West],
    {
        [Direction::North, Direction::East, Direction::South, Direction::West]
    }

    /// The 4 ordinal/diagonal directions (NE, SE, SW, NW).
    pub fn diagonal() -> (r: [Direction; 4])
        ensures
            r@ == seq![Direction::Northeast, Direction::Southeast, Direction::Southwest, Direction::Northwest],
    {
        [Direction::Northeast, Direction::Southeast, Direction::Southwest, Direction::Northwest]
    }

    /// The row delta for this direction (-1, 0, or 1).
    pub fn row_delta(&self) -> (r: isize)
        ensures
            r == spec_row_delta(*self),
    {
        match self {
            Direction::North | Direction::Northeast | Direction::Northwest => -1,
            Direction::South | Direction::Southeast | Direction::Southwest => 1,
            Direction::East | Direction::West => 0,
        }
    }

    /// The column delta for this direction (-1, 0, or 1).
    pub fn col_delta(&self) -> (r: isize)
        ensures
            r == spec_col_delta(*self),
    {
        match self {
            Direction::East | Direction::Northeast | Direction::Southeast => 1,
            Direction::West | Direction::Northwest | Direction::Southwest => -1,
            Direction::North | Direction::South => 0,
        }
    }

    /// The deltas as a (row, column) tuple.
    pub fn deltas(&self) -> (r: (isize, isize))
        ensures
            r.0 == spec_row_delta(*self),
            r.1 == spec_col_delta(*self),
    {
        (self.row_delta(), self.col_delta())
    }

    /// The opposite direction (180 degrees).
    pub fn opposite(&self) -> (r: Direction)
        ensures
            r == spec_opposite(*self),
    {
        match self {
            Direction::North => Direction::South,
            Direction::South => Direction::North,
            Direction::East => Direction::West,
            Direction::West => Direction::East,
            Direction::Northeast => Direction::Southwest,
            Direction::Southwest => Direction::Northeast,
            Direction::Northwest => Direction::Southeast,
            Direction::Southeast => Direction::Northwest,
        }
    }

    /// The direction rotated 90 degrees clockwise.
    pub fn clockwise(&self) -> (r: Direction)
        ensures
            r == spec_clockwise(*self),
    {
        match self {
            Direction::North => Direction::East,
            Direction::East => Direction::South,
            Direction::South => Direction::West,
            Direction::West => Direction::North,
            Direction::Northeast => Direction::Southeast,
            Direction::Southeast => Direction::Southwest,
            Direction::Southwest => Direction::Northwest,
            Direction::Northwest => Direction::Northeast,
        }
    }

    /// The direction rotated 90 degrees counter-clockwise.
    pub fn counter_clockwise(&self) -> (r: Direction)
        ensures
            r == spec_counter_clockwise(*self),
    {
        match self {
            Direction::North => Direction::West,
            Direction::West => Direction::South,
            Direction::South => Direction::East,
            Direction::East => Direction::North,
            Direction::Northeast => Direction::Northwest,
            Direction::Northwest => Direction::Southwest,
            Direction::Southwest => Direction::Southeast,
            Direction::Southeast => Direction::Northeast,
        }
    }

    /// Returns true if this is a cardinal direction.
    pub fn is_cardinal(&self) -> (r: bool)
        ensures
            r == (spec_row_delta(*self) == 0 || spec_col_delta(*self) == 0),
    {
        matches!(self, Direction::North | Direction::East | Direction::South | Direction::West)
    }

    /// Returns true if this is a diagonal direction.
    pub fn is_diagonal(&self) -> (r: bool)
        ensures
            r == (spec_row_delta(*self) != 0 && spec_col_delta(*self) != 0),
    {
        matches!(self, Direction::Northeast | Direction::Southeast | Direction::Southwest | Direction::Northwest)
    }

    /// Returns true if this direction points north (N, NE, NW).
    pub fn is_north(&self) -> (r: bool)
        ensures
            r == (spec_row_delta(*self) == -1),
    {
        matches!(self, Direction::North | Direction::Northeast | Direction::Northwest)
    }

    /// Returns true if this direction points south (S, SE, SW).
    pub fn is_south(&self) -> (r: bool)
        ensures
            r == (spec_row_delta(*self) == 1),
    {
        matches!(self, Direction::South | Direction::Southeast | Direction::Southwest)
    }

    /// Returns true if this direction points east (E, NE, SE).
    pub fn is_east(&self) -> (r: bool)
        ensures
            r == (spec_col_delta(*self) == 1),
    {
        matches!(self, Direction::East | Direction::Northeast | Direction::Southeast)
    }

    /// Returns true if this direction points west (W, NW, SW).
    pub fn is_west(&self) -> (r: bool)
        ensures
            r == (spec_col_delta(*self) == -1),
    {
        matches!(self, Direction::West | Direction::Northwest | Direction::Southwest)
    }

    /// A short single-character representation.
    pub fn char(&self) -> (r: char)
        ensures
            r == (match *self {
                Direction::North => 'N',
                Direction::Northeast => '↗',
                Direction::East => 'E',
                Direction::Southeast => '↘',
                Direction::South => 'S',
                Direction::Southwest => '↙',
                Direction::West => 'W',
                Direction::Northwest => '↖',
            }),
    {
        match self {
            Direction::North => 'N',
            Direction::Northeast => '↗',
            Direction::East => 'E',
            Direction::Southeast => '↘',
            Direction::South => 'S',
            Direction::Southwest => '↙',
            Direction::West => 'W',
            Direction::Northwest => '↖',
        }
    }

    /// An arrow character for this direction.
    pub fn arrow(&self) -> (r: char)
        ensures
            r == spec_arrow(*self),
    {
        match self {
            Direction::North => '↑',
            Direction::Northeast => '↗',
            Direction::East => '→',
            Direction::Southeast => '↘',
            Direction::South => '↓',
            Direction::Southwest => '↙',
            Direction::West => '←',
            Direction::Northwest => '↖',
        }
    }

    /// The text shown for a direction: its arrow.
    pub fn to_string(&self) -> (r: String)
        ensures
            r@ == spec_arrow_str(*self)@,
    {
        let s = match self {
            Direction::North => "↑",
            Direction::Northeast => "↗",
            Direction::East => "→",
            Direction::Southeast => "↘",
            Direction::South => "↓",
            Direction::Southwest => "↙",
            Direction::West => "←",
            Direction::Northwest => "↖",
        };
        String::from_str(s)
    }

    /// The direction whose deltas are the sums of the two directions' deltas,
    /// if that sum is a unit step; when the two directions cancel out (the
    /// sum is no step at all), this direction is kept.
    pub fn combine(&self, other: Direction) -> (r: Option<Direction>)
        ensures
            r == spec_combine(*self, other),
    {
        let (dr1, dc1) = self.deltas();
        let (dr2, dc2) = other.deltas();
        let dr = dr1 + dr2;
        let dc = dc1 + dc2;
        if dr == 0 && dc == 0 {
            Some(*self)
        } else if dr == -1 && dc == 0 {
            Some(Direction::North)
        } else if dr == -1 && dc == 1 {
            Some(Direction::Northeast)
        } else if dr == 0 && dc == 1 {
            Some(Direction::East)
        } else if dr == 1 && dc == 1 {
            Some(Direction::Southeast)
        } else if dr == 1 && dc == 0 {
            Some(Direction::South)
        } else if dr == 1 && dc == -1 {
            Some(Direction::Southwest)
        } else if dr == 0 && dc == -1 {
            Some(Direction::West)
        } else if dr == -1 && dc == -1 {
            Some(Direction::Northwest)
        } else {
            None
        }
    }

    /// The horizontal component of this direction, if any.
    pub fn horizontal(&self) -> (r: Option<Horizontal>)
        ensures
            r == (if spec_col_delta(*self) == 1 {
                Some(Horizontal::Right)
            } else if spec_col_delta(*self) == -1 {
                Some(Horizontal::Left)
            } else {
                None::<Horizontal>
            }),
    {
        match self {
            Direction::East | Direction::Northeast | Direction::Southeast => Some(Horizontal::Right),
            Direction::West | Direction::Northwest | Direction::Southwest => Some(Horizontal::Left),
            Direction::North | Direction::South => None,
        }
    }

    /// The vertical component of this direction, if any.
    pub fn vertical(&self) -> (r: Option<Vertical>)
        ensures
            r == (if spec_row_delta(*self) == -1 {
                Some(Vertical::Up)
            } else if spec_row_delta(*self) == 1 {
                Some(Vertical::Down)
            } else {
                None::<Vertical>
            }),
    {
        match self {
            Direction::North | Direction::Northeast | Direction::Northwest => Some(Vertical::Up),
            Direction::South | Direction::Southeast | Direction::Southwest => Some(Vertical::Down),
            Direction::East | Direction::West => None,
        }
    }

    /// Parses a direction from a case-insensitive alias; any other text is an
    /// error that names it.
    pub fn from_str(s: &str) -> (r: Result<Direction, String>)
        ensures
            spec_parse_direction(spec_to_lowercase(s@)) is Some ==> r == Ok::<Direction, String>(
                spec_parse_direction(spec_to_lowercase(s@)).unwrap(),
            ),
            spec_parse_direction(spec_to_lowercase(s@)) is None ==> r is Err && r->Err_0@
                == "Invalid direction: "@ + s@,
    {
        let lower = to_lowercase(s);
        let l = lower.as_str();
        if str_eq(l, "n") || str_eq(l, "north") || str_eq(l, "up") || str_eq(l, "↑") {
            Ok(Direction::North)
        } else if str_eq(l, "ne") || str_eq(l, "northeast") || str_eq(l, "up-right") || str_eq(l, "↗") {
            Ok(Direction::Northeast)
        } else if str_eq(l, "e") || str_eq(l, "east") || str_eq(l, "right") || str_eq(l, "→") {
            Ok(Direction::East)
        } else if str_eq(l, "se") || str_eq(l, "southeast") || str_eq(l, "down-right") || str_eq(l, "↘") {
            Ok(Direction::Southeast)
        } else if str_eq(l, "s") || str_eq(l, "south") || str_eq(l, "down") || str_eq(l, "↓") {
            Ok(Direction::South)
        } else if str_eq(l, "sw") || str_eq(l, "southwest") || str_eq(l, "down-left") || str_eq(l, "↙") {
            Ok(Direction::Southwest)
        } else if str_eq(l, "w") || str_eq(l, "west") || str_eq(l, "left") || str_eq(l, "←") {
            Ok(Direction::West)
        } else if str_eq(l, "nw") || str_eq(l, "northwest") || str_eq(l, "up-left") || str_eq(l, "↖") {
            Ok(Direction::Northwest)
        } else {
            Err(concat("Invalid direction: ", s))
        }
    }

    /// Steps to the next direction in the clockwise order from north, moving
    /// `self` there; the last one (northwest) has no successor and stays.
    pub fn next(&mut self) -> (r: Option<Direction>)
        ensures
            spec_index(*old(self)) < 7 ==> r == Some(spec_all()[spec_index(*old(self)) + 1])
                && *final(self) == spec_all()[spec_index(*old(self)) + 1],
            spec_index(*old(self)) == 7 ==> r is None && *final(self) == *old(self),
    {
        let directions = Direction::all();
        let mut i: usize = 0;
        while i < 8
            invariant_except_break
                0 <= i <= 8,
                directions@ == spec_all(),
                forall|j: int| 0 <= j < i ==> directions@[j] != *self,
            ensures
                i == spec_index(*self),
            decreases 8 - i,
        {
            if directions[i] == *self {
                break;
            }
            i = i + 1;
        }
        if i < 7 {
            let next = directions[i + 1];
            *self = next;
            Some(next)
        } else {
            None
        }
    }
}

/// Rotating clockwise and then counter-clockwise gives the direction back, and
/// four clockwise turns are a full circle; two turns are the opposite.
pub proof fn lemma_rotations(d: Direction)
    ensures
        spec_counter_clockwise(spec_clockwise(d)) == d,
        spec_clockwise(spec_counter_clockwise(d)) == d,
        spec_clockwise(spec_clockwise(d)) == spec_opposite(d),
        spec_clockwise(spec_clockwise(spec_clockwise(spec_clockwise(d)))) == d,
        spec_opposite(spec_opposite(d)) == d,
{
}

/// The opposite direction has the negated deltas, and a direction is
/// recovered from its deltas.
pub proof fn lemma_deltas(d: Direction)
    ensures
        spec_row_delta(spec_opposite(d)) == -spec_row_delta(d),
        spec_col_delta(spec_opposite(d)) == -spec_col_delta(d),
        spec_from_deltas(spec_row_delta(d), spec_col_delta(d)) == Some(d),
        spec_all()[spec_index(d)] == d,
{
}

/// Horizontal direction component.
#[derive(Clone, Copy, PartialEq, Eq, Debug, Hash, Structural)]
pub enum Horizontal {
    Left,
    Right,
}

impl Horizontal {
    /// The column delta of this component.
    pub fn delta(&self) -> (r: isize)
        ensures
            r == (match *self {
                Horizontal::Left => -1int,
                Horizontal::Right => 1int,
            }),
    {
        match self {
            Horizontal::Left => -1,
            Horizontal::Right => 1,
        }
    }

    /// The other horizontal component.
    pub fn opposite(&self) -> (r: Self)
        ensures
            r != *self,
    {
        match self {
            Horizontal::Left => Horizontal::Right,
            Horizontal::Right => Horizontal::Left,
        }
    }
}

/// Vertical direction component.
#[derive(Clone, Copy, PartialEq, Eq, Debug, Hash, Structural)]
pub enum Vertical {
    Up,
    Down,
}

impl Vertical {
    /// The row delta of this component.
    pub fn delta(&self) -> (r: isize)
        ensures
            r == (match *self {
                Vertical::Up => -1int,
                Vertical::Down => 1int,
            }),
    {
        match self {
            Vertical::Up => -1,
            Vertical::Down => 1,
        }
    }

    /// The other vertical component.
    pub fn opposite(&self) -> (r: Self)
        ensures
            r != *self,
    {
        match self {
            Vertical::Up => Vertical::Down,
            Vertical::Down => Vertical::Up,
        }
    }
}

/// The four line directions a win can run along, each with its opposite:
/// east, south, southeast and southwest.
pub open spec fn spec_win_lines() -> Seq<Direction> {
    seq![Direction::East, Direction::South, Direction::Southeast, Direction::Southwest]
}

/// Steps through the four win line directions.
#[derive(Clone, Copy, Debug)]
pub struct WinDirectionIterator {
    index: usize,
}

impl WinDirectionIterator {
    /// The position of the next line direction to hand out.
    pub closed spec fn spec_position(&self) -> usize {
        self.index
    }

    /// A new iterator at the first line direction.
    pub fn new() -> (r: Self)
        ensures
            r.spec_position() == 0,
    {
        WinDirectionIterator { index: 0 }
    }

    /// Hands out the next line direction with its opposite, or nothing after
    /// the fourth.
    pub fn next(&mut self) -> (r: Option<(Direction, Direction)>)
        ensures
            old(self).spec_position() < 4 ==> r == Some((
                spec_win_lines()[old(self).spec_position() as int],
                spec_opposite(spec_win_lines()[old(self).spec_position() as int]),
            )) && final(self).spec_position() == old(self).spec_position() + 1,
            old(self).spec_position() >= 4 ==> r is None && final(self).spec_position() == old(self).spec_position(),
    {
        let win_lines: [Direction; 4] = [Direction::East, Direction::South, Direction::Southeast, Direction::Southwest];
        if self.index < 4 {
            let dir = win_lines[self.index];
            self.index = self.index + 1;
            Some((dir, dir.opposite()))
        } else {
            None
        }
    }
}

impl Default for WinDirectionIterator {
    fn default() -> (r: Self)
        ensures
            r.spec_position() == 0,
    {
        Self::new()
    }
}

} // verus!
