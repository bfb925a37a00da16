//! Pieces, their special abilities, column stacks and a player's inventory
//! of special pieces.

use vstd::prelude::*;
use crate::cell::Cell;

verus! {

/// A piece that can be placed on the board.
#[derive(Clone, Copy, PartialEq, Eq, Debug, Hash, Structural)]
pub struct Piece {
    pub cell: Cell,
    /// Player number (1 or 2)
    pub owner: u8,
    pub special: SpecialType,
}

impl Piece {
    /// Creates a new regular piece.
    pub fn new(cell: Cell, owner: u8) -> (r: Self)
        ensures
            r == (Piece { cell, owner, special: SpecialType::Regular }),
    {
        Piece { cell, owner, special: SpecialType::Regular }
    }

    /// Creates a regular player 1 piece.
    pub fn player1() -> (r: Self)
        ensures
            r == (Piece { cell: Cell::Player1, owner: 1, special: SpecialType::Regular }),
    {
        Piece { cell: Cell::Player1, owner: 1, special: SpecialType::Regular }
    }

    /// Creates a regular player 2 piece.
    pub fn player2() -> (r: Self)
        ensures
            r == (Piece { cell: Cell::Player2, owner: 2, special: SpecialType::Regular }),
    {
        Piece { cell: Cell::Player2, owner: 2, special: SpecialType::Regular }
    }

    /// Creates a piece with a special type.
    pub fn with_special(cell: Cell, owner: u8, special: SpecialType) -> (r: Self)
        ensures
            r == (Piece { cell, owner, special }),
    {
        Piece { cell, owner, special }
    }

    /// Creates a blocker piece.
    pub fn blocker(owner: u8) -> (r: Self)
        ensures
            r == (Piece { cell: Cell::Blocker, owner, special: SpecialType::Blocker }),
    {
        Piece { cell: Cell::Blocker, owner, special: SpecialType::Blocker }
    }

    /// Creates an explosive piece.
    pub fn explosive(owner: u8) -> (r: Self)
        ensures
            r == (Piece { cell: Cell::Explosive, owner, special: SpecialType::Explosive }),
    {
        Piece { cell: Cell::Explosive, owner, special: SpecialType::Explosive }
    }

    /// Creates a bomb piece.
    pub fn bomb(owner: u8) -> (r: Self)
        ensures
            r == (Piece { cell: Cell::Bomb, owner, special: SpecialType::Bomb }),
    {
        Piece { cell: Cell::Bomb, owner, special: SpecialType::Bomb }
    }

    /// Returns the cell type.
    pub fn cell_type(&self) -> (r: Cell)
        ensures
            r == self.cell,
    {
        self.cell
    }

    /// Returns the owner player number.
    pub fn owner(&self) -> (r: u8)
        ensures
            r == self.owner,
    {
        self.owner
    }

    /// Returns the special type.
    pub fn special_type(&self) -> (r: SpecialType)
        ensures
            r == self.special,
    {
        self.special
    }

    /// Returns true if this is a special piece.
    pub fn is_special(&self) -> (r: bool)
        ensures
            r == (self.special != SpecialType::Regular),
    {
        self.special != SpecialType::Regular
    }

    /// Returns true if this piece can be destroyed.
    pub fn is_destroyable(&self) -> (r: bool)
        ensures
            r == (self.special != SpecialType::Indestructible),
    {
        !matches!(self.special, SpecialType::Indestructible)
    }

    /// Returns true if this piece counts toward wins.
    pub fn can_win(&self) -> (r: bool)
        ensures
            r == (self.cell == Cell::Player1 || self.cell == Cell::Player2),
    {
        matches!(self.cell, Cell::Player1 | Cell::Player2)
    }

    /// The text shown for a piece: its cell's symbol.
    pub fn to_string(&self) -> (r: String)
        ensures
            r@ == crate::cell::spec_symbol(self.cell)@,
    {
        self.cell.to_string()
    }
}

/// Special piece types.
#[derive(Clone, Copy, PartialEq, Eq, Debug, Hash, Structural)]
pub enum SpecialType {
    /// No special ability
    Regular,
    /// Blocks win detection
    Blocker,
    /// Destroys adjacent pieces when placed
    Explosive,
    /// Cannot be destroyed
    Indestructible,
    /// Clears entire column when placed
    Bomb,
    /// Acts as wildcard for any player
    Wild,
    /// Doubles the value of a winning line
    Double,
    /// Freezes a cell for one turn
    Freeze,
    /// Teleports to a random empty cell
    Teleport,
    /// Swaps with another piece
    Swap,
}

/// The name of each special type.
pub open spec fn spec_special_name(s: SpecialType) -> &'static str {
    match s {
        SpecialType::Regular => "None",
        SpecialType::Blocker => "Blocker",
        SpecialType::Explosive => "Explosive",
        SpecialType::Indestructible => "Indestructible",
        SpecialType::Bomb => "Bomb",
        SpecialType::Wild => "Wild",
        SpecialType::Double => "Double",
        SpecialType::Freeze => "Freeze",
        SpecialType::Teleport => "Teleport",
        SpecialType::Swap => "Swap",
    }
}

/// The description of each special type.
pub open spec fn spec_special_description(s: SpecialType) -> &'static str {
    match s {
        SpecialType::Regular => "No special ability",
        SpecialType::Blocker => "Blocks win detection for adjacent cells",
        SpecialType::Explosive => "Destroys adjacent pieces when placed",
        SpecialType::Indestructible => "Cannot be destroyed",
        SpecialType::Bomb => "Clears entire column when placed",
        SpecialType::Wild => "Counts as either player for win detection",
        SpecialType::Double => "Doubles the value of a winning line",
        SpecialType::Freeze => "Freezes a cell for one turn",
        SpecialType::Teleport => "Moves to a random empty cell after placement",
        SpecialType::Swap => "Swaps positions with another piece",
    }
}

impl SpecialType {
    /// Returns the name of this special type.
    pub fn name(&self) -> (r: &'static str)
        ensures
            r@ == spec_special_name(*self)@,
    {
        match self {
            SpecialType::Regular => "None",
            SpecialType::Blocker => "Blocker",
            SpecialType::Explosive => "Explosive",
            SpecialType::Indestructible => "Indestructible",
            SpecialType::Bomb => "Bomb",
            SpecialType::Wild => "Wild",
            SpecialType::Double => "Double",
            SpecialType::Freeze => "Freeze",
            SpecialType::Teleport => "Teleport",
            SpecialType::Swap => "Swap",
        }
    }

    /// Returns a description of this special ability.
    pub fn description(&self) -> (r: &'static str)
        ensures
            r@ == spec_special_description(*self)@,
    {
        match self {
            SpecialType::Regular => "No special ability",
            SpecialType::Blocker => "Blocks win detection for adjacent cells",
            SpecialType::Explosive => "Destroys adjacent pieces when placed",
            SpecialType::Indestructible => "Cannot be destroyed",
            SpecialType::Bomb => "Clears entire column when placed",
            SpecialType::Wild => "Counts as either player for win detection",
            SpecialType::Double => "Doubles the value of a winning line",
            SpecialType::Freeze => "Freezes a cell for one turn",
            SpecialType::Teleport => "Moves to a random empty cell after placement",
            SpecialType::Swap => "Swaps positions with another piece",
        }
    }

    /// Returns true if this special type modifies the board.
    pub fn modifies_board(&self) -> (r: bool)
        ensures
            r == (*self == SpecialType::Explosive || *self == SpecialType::Bomb || *self == SpecialType::Teleport
                || *self == SpecialType::Swap),
    {
        matches!(self, SpecialType::Explosive | SpecialType::Bomb | SpecialType::Teleport | SpecialType::Swap)
    }
}

/// A stack of pieces with a maximum height, bottom first.
#[derive(Clone, PartialEq, Eq, Debug)]
pub struct PieceStack {
    pieces: Vec<Piece>,
    max_height: usize,
}

impl View for PieceStack {
    type V = Seq<Piece>;

    /// The pieces, bottom first.
    closed spec fn view(&self) -> Seq<Piece> {
        self.pieces@
    }
}

impl PieceStack {
    /// The greatest number of pieces the stack takes.
    pub closed spec fn spec_max_height(&self) -> usize {
        self.max_height
    }

    /// Creates a new empty piece stack.
    pub fn new(max_height: usize) -> (r: Self)
        ensures
            r@ == Seq::<Piece>::empty(),
            r.spec_max_height() == max_height,
    {
        PieceStack { pieces: Vec::with_capacity(max_height), max_height }
    }

    /// Returns the height of the stack.
    pub fn height(&self) -> (r: usize)
        ensures
            r == self@.len(),
    {
        self.pieces.len()
    }

    /// Returns the maximum height.
    pub fn max_height(&self) -> (r: usize)
        ensures
            r == self.spec_max_height(),
    {
        self.max_height
    }

    /// Returns true if the stack is empty.
    pub fn is_empty(&self) -> (r: bool)
        ensures
            r == (self@.len() == 0),
    {
        self.pieces.len() == 0
    }

    /// Returns true if the stack is full.
    pub fn is_full(&self) -> (r: bool)
        ensures
            r == (self@.len() >= self.spec_max_height()),
    {
        self.pieces.len() >= self.max_height
    }

    /// Returns the top piece.
    pub fn top(&self) -> (r: Option<&Piece>)
        ensures
            self@.len() == 0 ==> r is None,
            self@.len() > 0 ==> r is Some && *r->Some_0 == self@.last(),
    {
        if self.pieces.len() == 0 {
            None
        } else {
            Some(&self.pieces[self.pieces.len() - 1])
        }
    }

    /// Returns the bottom piece.
    pub fn bottom(&self) -> (r: Option<&Piece>)
        ensures
            self@.len() == 0 ==> r is None,
            self@.len() > 0 ==> r is Some && *r->Some_0 == self@[0],
    {
        if self.pieces.len() == 0 {
            None
        } else {
            Some(&self.pieces[0])
        }
    }

    /// Pushes a piece onto the stack; a full stack refuses it and is unchanged.
    pub fn push(&mut self, piece: Piece) -> (r: Result<(), String>)
        ensures
            final(self).spec_max_height() == old(self).spec_max_height(),
            old(self)@.len() >= old(self).spec_max_height() ==> r is Err && final(self)@ == old(self)@
                && r->Err_0@ == "Stack is full"@,
            old(self)@.len() < old(self).spec_max_height() ==> r is Ok && final(self)@ == old(self)@.push(piece),
    {
        if self.is_full() {
            return Err(String::from_str("Stack is full"));
        }
        self.pieces.push(piece);
        Ok(())
    }

    /// Pops the top piece from the stack.
    pub fn pop(&mut self) -> (r: Option<Piece>)
        ensures
            final(self).spec_max_height() == old(self).spec_max_height(),
            old(self)@.len() == 0 ==> r is None && final(self)@ == old(self)@,
            old(self)@.len() > 0 ==> r == Some(old(self)@.last()) && final(self)@ == old(self)@.drop_last(),
    {
        self.pieces.pop()
    }

    /// Peeks at a specific position in the stack (0 is the bottom).
    pub fn peek(&self, index: usize) -> (r: Option<&Piece>)
        ensures
            index < self@.len() ==> r is Some && *r->Some_0 == self@[index as int],
            index >= self@.len() ==> r is None,
    {
        if index < self.pieces.len() {
            Some(&self.pieces[index])
        } else {
            None
        }
    }

    /// Clears all pieces from the stack.
    pub fn clear(&mut self)
        ensures
            final(self)@ == Seq::<Piece>::empty(),
            final(self).spec_max_height() == old(self).spec_max_height(),
    {
        self.pieces.clear();
    }

    /// The pieces, bottom first.
    pub fn iter(&self) -> (r: &[Piece])
        ensures
            r@ == self@,
    {
        self.pieces.as_slice()
    }

    /// Counts pieces of a specific owner.
    pub fn count_owner(&self, owner: u8) -> (r: usize)
        ensures
            r == count_owned(self@, owner),
    {
        let mut count: usize = 0;
        let mut k: usize = 0;
        while k < self.pieces.len()
            invariant
                k <= self.pieces@.len(),
                count == count_owned(self.pieces@.subrange(0, k as int), owner),
                count <= k,
            decreases self.pieces@.len() - k,
        {
            proof {
                assert(self.pieces@.subrange(0, k as int + 1).drop_last() =~= self.pieces@.subrange(0, k as int));
            }
            if self.pieces[k].owner == owner {
                count = count + 1;
            }
            k = k + 1;
        }
        proof {
            assert(self.pieces@.subrange(0, self.pieces@.len() as int) =~= self.pieces@);
        }
        count
    }
}

/// The number of listed pieces that belong to `owner`.
pub open spec fn count_owned(ps: Seq<Piece>, owner: u8) -> nat
    decreases ps.len(),
{
    if ps.len() == 0 {
        0
    } else {
        count_owned(ps.drop_last(), owner) + (if ps.last().owner == owner { 1nat } else { 0nat })
    }
}

/// Pushing a piece and popping it again gives the stack back.
pub proof fn lemma_push_pop(s: Seq<Piece>, p: Piece)
    ensures
        s.push(p).drop_last() == s,
        s.push(p).last() == p,
{
    assert(s.push(p).drop_last() =~= s);
}

/// The special pieces a player still has; regular pieces are unlimited.
#[derive(Clone, PartialEq, Eq, Debug, Structural)]
pub struct PieceInventory {
    regular: u32,
    blockers: u32,
    explosives: u32,
    bombs: u32,
    wilds: u32,
}

impl PieceInventory {
    /// The number of regular pieces.
    pub closed spec fn spec_regular(&self) -> u32 {
        self.regular
    }

    /// The number of blockers.
    pub closed spec fn spec_blockers(&self) -> u32 {
        self.blockers
    }

    /// The number of explosives.
    pub closed spec fn spec_explosives(&self) -> u32 {
        self.explosives
    }

    /// The number of bombs.
    pub closed spec fn spec_bombs(&self) -> u32 {
        self.bombs
    }

    /// The number of wilds.
    pub closed spec fn spec_wilds(&self) -> u32 {
        self.wilds
    }

    /// The number held of a special type that the inventory keeps (blocker,
    /// explosive, bomb or wild); 0 for any other.
    pub open spec fn spec_held(&self, special: SpecialType) -> u32 {
        match special {
            SpecialType::Blocker => self.spec_blockers(),
            SpecialType::Explosive => self.spec_explosives(),
            SpecialType::Bomb => self.spec_bombs(),
            SpecialType::Wild => self.spec_wilds(),
            _ => 0,
        }
    }

    /// A new inventory with unlimited regular pieces and no special ones.
    pub fn new() -> (r: Self)
        ensures
            r.spec_regular() == u32::MAX,
            r.spec_blockers() == 0,
            r.spec_explosives() == 0,
            r.spec_bombs() == 0,
            r.spec_wilds() == 0,
    {
        PieceInventory { regular: u32::MAX, blockers: 0, explosives: 0, bombs: 0, wilds: 0 }
    }

    /// An inventory with the given numbers of special pieces.
    pub fn with_limited(blockers: u32, explosives: u32, bombs: u32, wilds: u32) -> (r: Self)
        ensures
            r.spec_regular() == u32::MAX,
            r.spec_blockers() == blockers,
            r.spec_explosives() == explosives,
            r.spec_bombs() == bombs,
            r.spec_wilds() == wilds,
    {
        PieceInventory { regular: u32::MAX, blockers, explosives, bombs, wilds }
    }

    /// The count of regular pieces (always unlimited).
    pub fn regular_count(&self) -> (r: u32)
        ensures
            r == self.spec_regular(),
    {
        self.regular
    }

    /// The count of blockers.
    pub fn blockers(&self) -> (r: u32)
        ensures
            r == self.spec_blockers(),
    {
        self.blockers
    }

    /// The count of explosives.
    pub fn explosives(&self) -> (r: u32)
        ensures
            r == self.spec_explosives(),
    {
        self.explosives
    }

    /// The count of bombs.
    pub fn bombs(&self) -> (r: u32)
        ensures
            r == self.spec_bombs(),
    {
        self.bombs
    }

    /// The count of wilds.
    pub fn wilds(&self) -> (r: u32)
        ensures
            r == self.spec_wilds(),
    {
        self.wilds
    }

    /// Takes one special piece of the given type for `owner`, if one is
    /// left; other special types are never available.
    pub fn use_special(&mut self, special: SpecialType, owner: u8) -> (r: Option<Piece>)
        ensures
            final(self).spec_regular() == old(self).spec_regular(),
            old(self).spec_held(special) > 0 ==> r == Some(special_piece(special, owner)) && final(self).spec_held(
                special,
            ) == old(self).spec_held(special) - 1,
            old(self).spec_held(special) == 0 ==> r is None && *final(self) == *old(self),
            forall|t: SpecialType| t != special ==> #[trigger] final(self).spec_held(t) == old(self).spec_held(t),
    {
        match special {
            SpecialType::Blocker => {
                if self.blockers > 0 {
                    self.blockers = self.blockers - 1;
                    return Some(Piece::blocker(owner));
                }
            },
            SpecialType::Explosive => {
                if self.explosives > 0 {
                    self.explosives = self.explosives - 1;
                    return Some(Piece::explosive(owner));
                }
            },
            SpecialType::Bomb => {
                if self.bombs > 0 {
                    self.bombs = self.bombs - 1;
                    return Some(Piece::bomb(owner));
                }
            },
            SpecialType::Wild => {
                if self.wilds > 0 {
                    self.wilds = self.wilds - 1;
                    return Some(Piece::with_special(Cell::Wild, owner, SpecialType::Wild));
                }
            },
            _ => {},
        }
        None
    }

    /// Adds special pieces to the inventory, saturating at `u32::MAX`; other
    /// special types are ignored.
    pub fn add_special(&mut self, special: SpecialType, count: u32)
        ensures
            final(self).spec_regular() == old(self).spec_regular(),
            is_kept_special(special) ==> final(self).spec_held(special) == (if old(self).spec_held(special) + count
                > u32::MAX {
                u32::MAX as int
            } else {
                old(self).spec_held(special) + count
            }),
            !is_kept_special(special) ==> *final(self) == *old(self),
            forall|t: SpecialType| t != special ==> #[trigger] final(self).spec_held(t) == old(self).spec_held(t),
    {
        match special {
            SpecialType::Blocker => {
                self.blockers = self.blockers.saturating_add(count);
            },
            SpecialType::Explosive => {
                self.explosives = self.explosives.saturating_add(count);
            },
            SpecialType::Bomb => {
                self.bombs = self.bombs.saturating_add(count);
            },
            SpecialType::Wild => {
                self.wilds = self.wilds.saturating_add(count);
            },
            _ => {},
        }
    }
}

/// The special types that an inventory keeps.
pub open spec fn is_kept_special(s: SpecialType) -> bool {
    s == SpecialType::Blocker || s == SpecialType::Explosive || s == SpecialType::Bomb || s == SpecialType::Wild
}

/// The piece handed out for a special type.
pub open spec fn special_piece(s: SpecialType, owner: u8) -> Piece {
    match s {
        SpecialType::Blocker => Piece { cell: Cell::Blocker, owner, special: SpecialType::Blocker },
        SpecialType::Explosive => Piece { cell: Cell::Explosive, owner, special: SpecialType::Explosive },
        SpecialType::Bomb => Piece { cell: Cell::Bomb, owner, special: SpecialType::Bomb },
        _ => Piece { cell: Cell::Wild, owner, special: SpecialType::Wild },
    }
}

impl Default for PieceInventory {
    fn default() -> (r: Self)
        ensures
            r.spec_regular() == u32::MAX,
            r.spec_blockers() == 0,
            r.spec_explosives() == 0,
            r.spec_bombs() == 0,
            r.spec_wilds() == 0,
    {
        Self::new()
    }
}

/// Adding `n` special pieces (without reaching the cap) and then using one
/// leaves one fewer than was added on top of what was there.
pub proof fn lemma_add_then_use(held: u32, n: u32)
    requires
        n > 0,
        held + n <= u32::MAX,
    ensures
        (held + n) - 1 == held + (n - 1),
        held + n > 0,
{
}

} // verus!
