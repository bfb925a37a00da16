//! The tree of a Monte Carlo tree search: nodes with their positions and
//! counts, expansion by every legal move, random playouts, the backing up
//! of their results, and the final choice by visit count. Choosing which
//! child to descend into is left to the caller.

use vstd::prelude::*;
use crate::board::{Board, count_in_column, grid_shape};
use crate::cell::Cell;
use crate::chance::choose_one;
use crate::game_tree::{grid_column_full, grid_drop, grid_landing, grid_terminal, play, can_play, is_terminal, SEARCH_LINE, lemma_grid_landing};
use crate::player::{Player, spec_cell, spec_opponent};

verus! {

/// One position in the search tree.
pub struct MCTSNode {
    board: Board,
    player: Player,
    visits: u32,
    wins: u32,
    children: Vec<usize>,
    parent: Option<usize>,
    move_made: Option<usize>,
}

impl MCTSNode {
    /// The position.
    pub closed spec fn spec_board(&self) -> Board {
        self.board
    }

    /// The player to move.
    pub closed spec fn spec_player(&self) -> Player {
        self.player
    }

    /// The number of playouts through this node.
    pub closed spec fn spec_visits(&self) -> u32 {
        self.visits
    }

    /// The number of those won by the player who moved into this node.
    pub closed spec fn spec_wins(&self) -> u32 {
        self.wins
    }

    /// The indices of the children.
    pub closed spec fn spec_children(&self) -> Seq<usize> {
        self.children@
    }

    /// The index of the parent.
    pub closed spec fn spec_parent(&self) -> Option<usize> {
        self.parent
    }

    /// The column played to reach this node.
    pub closed spec fn spec_move(&self) -> Option<usize> {
        self.move_made
    }

    /// The position.
    pub fn board(&self) -> (r: &Board)
        ensures
            *r == self.spec_board(),
    {
        &self.board
    }

    /// The player to move.
    pub fn player(&self) -> (r: Player)
        ensures
            r == self.spec_player(),
    {
        self.player
    }

    /// The number of playouts through this node.
    pub fn visits(&self) -> (r: u32)
        ensures
            r == self.spec_visits(),
    {
        self.visits
    }

    /// The number of playouts won by the player who moved into this node.
    pub fn wins(&self) -> (r: u32)
        ensures
            r == self.spec_wins(),
    {
        self.wins
    }

    /// The indices of the children.
    pub fn children(&self) -> (r: &[usize])
        ensures
            r@ == self.spec_children(),
    {
        self.children.as_slice()
    }

    /// The index of the parent.
    pub fn parent(&self) -> (r: Option<usize>)
        ensures
            r == self.spec_parent(),
    {
        self.parent
    }

    /// The column played to reach this node.
    pub fn move_made(&self) -> (r: Option<usize>)
        ensures
            r == self.spec_move(),
    {
        self.move_made
    }
}

/// A board the tree can hold: well formed, with rows when it has columns.
pub open spec fn playable_board(b: Board) -> bool {
    b.wf() && (b.spec_cols() > 0 ==> b.spec_rows() > 0)
}

/// A node is sound in a tree of `len` nodes: its board can be played on,
/// and its children and parent are nodes of the tree.
pub open spec fn node_ok(n: MCTSNode, len: int) -> bool {
    &&& playable_board(n.spec_board())
    &&& forall|j: int| 0 <= j < n.spec_children().len() ==> #[trigger] n.spec_children()[j] < len
    &&& (n.spec_parent() matches Some(p) ==> p < len)
}

/// The columns among the first `n` that can take a piece, in order.
pub open spec fn open_columns(g: Seq<Seq<Cell>>, cols: int, n: int) -> Seq<usize>
    decreases n,
{
    if n <= 0 {
        Seq::empty()
    } else if !grid_column_full(g, cols, n - 1) {
        open_columns(g, cols, n - 1).push((n - 1) as usize)
    } else {
        open_columns(g, cols, n - 1)
    }
}

/// `x + k`, stopping at the largest `u32`.
pub open spec fn sat_add(x: u32, k: nat) -> u32 {
    if x + k > u32::MAX { u32::MAX } else { (x + k) as u32 }
}

/// The number of times `i` occurs in `s`.
pub open spec fn occurrences(s: Seq<usize>, i: usize) -> nat
    decreases s.len(),
{
    if s.len() == 0 {
        0
    } else {
        occurrences(s.drop_last(), i) + if s.last() == i { 1nat } else { 0nat }
    }
}

/// The search tree: its nodes by index and the index of the root.
pub struct MCTSTree {
    nodes: Vec<MCTSNode>,
    root: Option<usize>,
}

impl MCTSTree {
    /// The nodes.
    pub closed spec fn spec_nodes(&self) -> Seq<MCTSNode> {
        self.nodes@
    }

    /// The index of the root.
    pub closed spec fn spec_root(&self) -> Option<usize> {
        self.root
    }

    /// Every node is sound and the root is a node.
    pub open spec fn wf(&self) -> bool {
        &&& (self.spec_root() matches Some(r) ==> r < self.spec_nodes().len())
        &&& forall|i: int| 0 <= i < self.spec_nodes().len() ==> node_ok(#[trigger] self.spec_nodes()[i], self.spec_nodes().len() as int)
    }

    /// An empty tree.
    pub fn new() -> (r: Self)
        ensures
            r.wf(),
            r.spec_nodes().len() == 0,
            r.spec_root() is None,
    {
        MCTSTree { nodes: Vec::new(), root: None }
    }

    /// The number of nodes.
    pub fn len(&self) -> (r: usize)
        ensures
            r == self.spec_nodes().len(),
    {
        self.nodes.len()
    }

    /// The index of the root.
    pub fn root(&self) -> (r: Option<usize>)
        ensures
            r == self.spec_root(),
    {
        self.root
    }

    /// The node at index `i`.
    pub fn node(&self, i: usize) -> (r: &MCTSNode)
        requires
            i < self.spec_nodes().len(),
        ensures
            *r == self.spec_nodes()[i as int],
    {
        &self.nodes[i]
    }

    /// Starts over with a single root node for `board` with `player` to
    /// move, never visited.
    pub fn start(&mut self, board: Board, player: Player)
        requires
            playable_board(board),
        ensures
            final(self).wf(),
            final(self).spec_nodes().len() == 1,
            final(self).spec_root() == Some(0usize),
            final(self).spec_nodes()[0].spec_board() == board,
            final(self).spec_nodes()[0].spec_player() == player,
            final(self).spec_nodes()[0].spec_visits() == 0,
            final(self).spec_nodes()[0].spec_wins() == 0,
            final(self).spec_nodes()[0].spec_children().len() == 0,
            final(self).spec_nodes()[0].spec_parent() is None,
            final(self).spec_nodes()[0].spec_move() is None,
    {
        self.nodes = Vec::new();
        self.nodes.push(MCTSNode { board, player, visits: 0, wins: 0, children: Vec::new(), parent: None, move_made: None });
        self.root = Some(0);
    }

    /// Adds a child of node `idx` for each column its position can take a
    /// piece in, left to right: the position after the move, the other
    /// player to move, never visited; the new nodes go at the end and their
    /// indices after the node's earlier children.
    pub fn expand_node(&mut self, idx: usize)
        requires
            old(self).wf(),
            idx < old(self).spec_nodes().len(),
        ensures
            final(self).wf(),
            final(self).spec_root() == old(self).spec_root(),
            ({
                let n = old(self).spec_nodes()[idx as int];
                let g = n.spec_board()@;
                let cols = n.spec_board().spec_cols() as int;
                let rows = n.spec_board().spec_rows() as int;
                let open = open_columns(g, cols, cols);
                let base = old(self).spec_nodes().len();
                &&& final(self).spec_nodes().len() == base + open.len()
                &&& forall|i: int| 0 <= i < base && i != idx ==> #[trigger] final(self).spec_nodes()[i] == old(self).spec_nodes()[i]
                &&& final(self).spec_nodes()[idx as int].spec_board() == n.spec_board()
                &&& final(self).spec_nodes()[idx as int].spec_player() == n.spec_player()
                &&& final(self).spec_nodes()[idx as int].spec_visits() == n.spec_visits()
                &&& final(self).spec_nodes()[idx as int].spec_wins() == n.spec_wins()
                &&& final(self).spec_nodes()[idx as int].spec_parent() == n.spec_parent()
                &&& final(self).spec_nodes()[idx as int].spec_move() == n.spec_move()
                &&& final(self).spec_nodes()[idx as int].spec_children() == n.spec_children() + Seq::new(
                    open.len(),
                    |j: int| (base + j) as usize,
                )
                &&& forall|j: int| 0 <= j < open.len() ==> {
                    let c = #[trigger] final(self).spec_nodes()[base + j];
                    &&& c.spec_board()@ == grid_drop(g, rows, open[j] as int, spec_cell(n.spec_player()))
                    &&& c.spec_board().spec_rows() == rows
                    &&& c.spec_board().spec_cols() == cols
                    &&& c.spec_player() == spec_opponent(n.spec_player())
                    &&& c.spec_visits() == 0
                    &&& c.spec_wins() == 0
                    &&& c.spec_children().len() == 0
                    &&& c.spec_parent() == Some(idx)
                    &&& c.spec_move() == Some(open[j])
                }
            }),
    {
        let ghost old_nodes = self.nodes@;
        let ghost base = self.nodes@.len();
        let board = self.nodes[idx].board.clone();
        let player = self.nodes[idx].player;
        let ghost g = board@;
        let ghost rows = board.spec_rows() as int;
        let ghost cols = board.spec_cols() as int;
        let mut children: Vec<usize> = Vec::new();
        let mut k: usize = 0;
        while k < self.nodes[idx].children.len()
            invariant
                self.nodes@ == old_nodes,
                idx < old_nodes.len(),
                k <= old_nodes[idx as int].children@.len(),
                children@ == old_nodes[idx as int].children@.take(k as int),
            decreases old_nodes[idx as int].children@.len() - k,
        {
            children.push(self.nodes[idx].children[k]);
            k = k + 1;
        }
        proof {
            assert(children@ =~= old_nodes[idx as int].children@);
        }
        let mut col: usize = 0;
        while col < board.cols()
            invariant
                playable_board(board),
                board@ == g,
                rows == board.spec_rows(),
                cols == board.spec_cols(),
                idx < base,
                base == old_nodes.len(),
                col <= cols,
                self.nodes@.len() == base + open_columns(g, cols, col as int).len(),
                self.nodes@.take(base as int) == old_nodes,
                self.root == old(self).root,
                old(self).wf(),
                old_nodes == old(self).nodes@,
                children@ == old_nodes[idx as int].children@ + Seq::new(
                    open_columns(g, cols, col as int).len(),
                    |j: int| (base + j) as usize,
                ),
                forall|j: int| 0 <= j < open_columns(g, cols, col as int).len() ==> {
                    let c = #[trigger] self.nodes@[base + j];
                    &&& c.board@ == grid_drop(g, rows, open_columns(g, cols, col as int)[j] as int, spec_cell(player))
                    &&& c.board.spec_rows() == rows
                    &&& c.board.spec_cols() == cols
                    &&& playable_board(c.board)
                    &&& c.player == spec_opponent(player)
                    &&& c.visits == 0
                    &&& c.wins == 0
                    &&& c.children@.len() == 0
                    &&& c.parent == Some(idx)
                    &&& c.move_made == Some(open_columns(g, cols, col as int)[j])
                },
            decreases cols - col,
        {
            let ghost before = open_columns(g, cols, col as int);
            if can_play(&board, col) {
                let child_board = play(&board, col, player.cell());
                let child_idx = self.nodes.len();
                self.nodes.push(MCTSNode {
                    board: child_board,
                    player: player.opponent(),
                    visits: 0,
                    wins: 0,
                    children: Vec::new(),
                    parent: Some(idx),
                    move_made: Some(col),
                });
                children.push(child_idx);
                proof {
                    assert(open_columns(g, cols, col + 1) == before.push(col));
                    assert(self.nodes@.take(base as int) =~= old_nodes);
                    assert(children@ =~= old_nodes[idx as int].children@ + Seq::new(
                        open_columns(g, cols, col + 1).len(),
                        |j: int| (base + j) as usize,
                    ));
                }
            } else {
                proof {
                    assert(open_columns(g, cols, col + 1) == before);
                }
            }
            col = col + 1;
        }
        let ghost mid = self.nodes@;
        let ghost new_children = children@;
        let mut node = self.nodes.remove(idx);
        node.children = children;
        self.nodes.insert(idx, node);
        proof {
            let len = self.nodes@.len() as int;
            let open = open_columns(g, cols, cols);
            assert(len <= usize::MAX) by {
                assert(self.nodes@.len() == self.nodes.len());
            }
            assert(self.nodes@ =~= mid.update(idx as int, self.nodes@[idx as int]));
            assert(mid[idx as int] == old_nodes[idx as int]) by {
                assert(mid.take(base as int)[idx as int] == mid[idx as int]);
            }
            assert(self.nodes@[idx as int].children@ == new_children);
            assert forall|i: int| 0 <= i < len implies node_ok(#[trigger] self.nodes@[i], len) by {
                if i < base {
                    assert(mid[i] == old_nodes[i]) by {
                        assert(mid.take(base as int)[i] == mid[i]);
                    }
                    assert(node_ok(old(self).spec_nodes()[i], old(self).spec_nodes().len() as int));
                    assert(node_ok(old_nodes[i], base as int));
                    if i != idx {
                        assert(self.nodes@[i] == mid[i]);
                        assert forall|j: int| 0 <= j < self.nodes@[i].spec_children().len() implies #[trigger] self.nodes@[i].spec_children()[j] < len by {
                            assert(old_nodes[i].spec_children()[j] < base);
                        }
                    }
                    if i == idx {
                        assert(self.nodes@[i].spec_board() == old_nodes[i].spec_board());
                        assert(self.nodes@[i].spec_parent() == old_nodes[i].spec_parent());
                        let ch = self.nodes@[i].spec_children();
                        let oc = old_nodes[idx as int].spec_children();
                        assert forall|j: int| 0 <= j < ch.len() implies #[trigger] ch[j] < len by {
                            if j >= oc.len() {
                                assert(ch[j] == (base + (j - oc.len())) as usize);
                            } else {
                                assert(ch[j] == oc[j]);
                                assert(old_nodes[idx as int].spec_children()[j] < base);
                            }
                        }
                    }
                } else {
                    let j = i - base;
                    assert(self.nodes@[i] == mid[base + j]);
                    assert(playable_board(self.nodes@[i].spec_board()));
                    assert(self.nodes@[i].spec_children().len() == 0);
                    assert(self.nodes@[i].spec_parent() == Some(idx));
                }
            }
            assert forall|i: int| 0 <= i < base && i != idx implies #[trigger] self.nodes@[i] == old_nodes[i] by {
                assert(mid.take(base as int)[i] == mid[i]);
            }
            assert forall|j: int| 0 <= j < open.len() implies #[trigger] self.nodes@[base + j] == mid[base + j] by {}
        }
    }

    /// Adds one playout's result to every node of `path` (a node listed
    /// twice counts twice): a visit each, and a win where the player who
    /// moved into the node won. Both counts stop at the largest `u32`.
    pub fn backpropagate(&mut self, path: Vec<usize>, winner: Option<Player>)
        requires
            old(self).wf(),
            forall|j: int| 0 <= j < path@.len() ==> #[trigger] path@[j] < old(self).spec_nodes().len(),
        ensures
            final(self).wf(),
            final(self).spec_root() == old(self).spec_root(),
            final(self).spec_nodes().len() == old(self).spec_nodes().len(),
            forall|i: int| 0 <= i < old(self).spec_nodes().len() ==> {
                let o = old(self).spec_nodes()[i];
                let n = #[trigger] final(self).spec_nodes()[i];
                &&& n.spec_board() == o.spec_board()
                &&& n.spec_player() == o.spec_player()
                &&& n.spec_children() == o.spec_children()
                &&& n.spec_parent() == o.spec_parent()
                &&& n.spec_move() == o.spec_move()
                &&& n.spec_visits() == sat_add(o.spec_visits(), occurrences(path@, i as usize))
                &&& n.spec_wins() == sat_add(
                    o.spec_wins(),
                    if winner == Some(spec_opponent(o.spec_player())) { occurrences(path@, i as usize) } else { 0 },
                )
            },
    {
        let ghost old_nodes = self.nodes@;
        let ghost full = path@;
        let mut path = path;
        while path.len() > 0
            invariant
                self.wf(),
                self.root == old(self).root,
                self.nodes@.len() == old_nodes.len(),
                old_nodes == old(self).nodes@,
                full.len() >= path@.len(),
                path@ == full.take(path@.len() as int),
                forall|j: int| 0 <= j < full.len() ==> #[trigger] full[j] < old_nodes.len(),
                forall|i: int| 0 <= i < old_nodes.len() ==> {
                    let o = old_nodes[i];
                    let n = #[trigger] self.nodes@[i];
                    let done = occurrences(full, i as usize) - occurrences(path@, i as usize);
                    &&& occurrences(path@, i as usize) <= occurrences(full, i as usize)
                    &&& n.board == o.board
                    &&& n.player == o.player
                    &&& n.children == o.children
                    &&& n.parent == o.parent
                    &&& n.move_made == o.move_made
                    &&& n.visits == sat_add(o.visits, done as nat)
                    &&& n.wins == sat_add(o.wins, if winner == Some(spec_opponent(o.player)) { done as nat } else { 0 })
                },
            decreases path@.len(),
        {
            let ghost before = path@;
            let idx = path.pop().unwrap();
            proof {
                assert(path@ == before.drop_last());
                assert(before.last() == idx);
                assert(path@ =~= full.take(path@.len() as int));
                assert(idx == full[path@.len() as int]);
            }
            let ghost mid = self.nodes@;
            proof {
                assert forall|k: int| 0 <= k < mid.len() implies node_ok(#[trigger] mid[k], mid.len() as int) by {
                    assert(node_ok(self.spec_nodes()[k], self.spec_nodes().len() as int));
                }
            }
            let mut node = self.nodes.remove(idx);
            if let Some(w) = winner {
                if w == node.player.opponent() {
                    node.wins = node.wins.saturating_add(1);
                }
            }
            node.visits = node.visits.saturating_add(1);
            self.nodes.insert(idx, node);
            proof {
                let len = old_nodes.len() as int;
                assert(self.nodes@.len() == self.nodes.len());
                assert(self.nodes@ =~= mid.update(idx as int, self.nodes@[idx as int]));
                let nn = self.nodes@[idx as int];
                let on = mid[idx as int];
                assert(nn.board == on.board && nn.children == on.children && nn.parent == on.parent
                    && nn.player == on.player && nn.move_made == on.move_made);
                assert(node_ok(mid[idx as int], mid.len() as int));
                lemma_node_ok_same(mid[idx as int], nn, len);
                assert forall|k: int| 0 <= k < len implies node_ok(#[trigger] self.nodes@[k], len) by {
                    if k != idx {
                        assert(self.nodes@[k] == mid[k]);
                        assert(node_ok(mid[k], mid.len() as int));
                    }
                }
                assert forall|i: int| 0 <= i < len implies occurrences(path@, i as usize) + (if idx == i as usize { 1nat } else { 0nat })
                    == #[trigger] occurrences(before, i as usize) by {
                    assert(path@ == before.drop_last());
                }
                assert forall|i: int| 0 <= i < len && i != idx implies #[trigger] self.nodes@[i] == mid[i] by {}
                assert forall|i: int| 0 <= i < len implies {
                    let o = old_nodes[i];
                    let n = #[trigger] self.nodes@[i];
                    let done = occurrences(full, i as usize) - occurrences(path@, i as usize);
                    &&& occurrences(path@, i as usize) <= occurrences(full, i as usize)
                    &&& n.board == o.board
                    &&& n.player == o.player
                    &&& n.children == o.children
                    &&& n.parent == o.parent
                    &&& n.move_made == o.move_made
                    &&& n.visits == sat_add(o.visits, done as nat)
                    &&& n.wins == sat_add(o.wins, if winner == Some(spec_opponent(o.player)) { done as nat } else { 0 })
                } by {
                    let m = mid[i];
                    let o = old_nodes[i];
                    let d0 = occurrences(full, i as usize) - occurrences(before, i as usize);
                    assert(occurrences(before, i as usize) <= occurrences(full, i as usize));
                    assert(m.visits == sat_add(o.visits, d0 as nat));
                    assert(occurrences(path@, i as usize) + (if idx == i as usize { 1nat } else { 0nat }) == occurrences(before, i as usize));
                    if i == idx {
                        assert(m.player == o.player);
                        let n = self.nodes@[i];
                        assert(n.visits == sat_add(m.visits, 1));
                        lemma_sat_add_step(o.visits, d0 as nat);
                        if winner == Some(spec_opponent(o.player)) {
                            assert(n.wins == sat_add(m.wins, 1));
                            lemma_sat_add_step(o.wins, d0 as nat);
                        } else {
                            assert(n.wins == m.wins);
                        }
                    } else {
                        assert(self.nodes@[i] == mid[i]);
                    }
                }
            }
        }
        proof {
            assert forall|i: int| 0 <= i < old_nodes.len() implies #[trigger] occurrences(path@, i as usize) == 0 by {
                assert(path@ =~= Seq::<usize>::empty());
            }
        }
    }

    /// The move of the root's most visited child (the last of the most
    /// visited, in the order the children were added); `None` without a
    /// root or children.
    pub fn get_best_move(&self) -> (r: Option<usize>)
        requires
            self.wf(),
        ensures
            r == (match self.spec_root() {
                Some(root) => match most_visited(self.spec_nodes(), self.spec_nodes()[root as int].spec_children(), self.spec_nodes()[root as int].spec_children().len() as int) {
                    Some(c) => self.spec_nodes()[c as int].spec_move(),
                    None => None,
                },
                None => None,
            }),
            r is Some ==> (self.spec_root() matches Some(root) && exists|i: int|
                #![trigger self.spec_nodes()[root as int].spec_children()[i]]
                0 <= i < self.spec_nodes()[root as int].spec_children().len() && r == self.spec_nodes()[self.spec_nodes()[root as int].spec_children()[i] as int].spec_move()
                    && most_visits(self.spec_nodes(), self.spec_nodes()[root as int].spec_children(), self.spec_nodes()[root as int].spec_children()[i])),
    {
        proof {
            if let Some(root) = self.spec_root() {
                let ch = self.spec_nodes()[root as int].spec_children();
                lemma_most_visited(self.spec_nodes(), ch, ch.len() as int);
            }
        }
        match self.root {
            Some(root) => {
                let children = &self.nodes[root].children;
                let ghost ch = children@;
                proof {
                    assert(node_ok(self.nodes@[root as int], self.nodes@.len() as int));
                }
                let mut best: Option<usize> = None;
                let mut i: usize = 0;
                while i < children.len()
                    invariant
                        self.wf(),
                        ch == children@,
                        forall|j: int| 0 <= j < ch.len() ==> #[trigger] ch[j] < self.nodes@.len(),
                        i <= ch.len(),
                        best == most_visited(self.nodes@, ch, i as int),
                        best matches Some(b) ==> b < self.nodes@.len(),
                    decreases ch.len() - i,
                {
                    let c = children[i];
                    match best {
                        Some(b) => {
                            if self.nodes[c].visits >= self.nodes[b].visits {
                                best = Some(c);
                            }
                        },
                        None => {
                            best = Some(c);
                        },
                    }
                    i = i + 1;
                }
                match best {
                    Some(b) => self.nodes[b].move_made,
                    None => None,
                }
            },
            None => None,
        }
    }
}

/// Adding one more to a stopping sum is adding one more to the count.
proof fn lemma_sat_add_step(x: u32, k: nat)
    ensures
        sat_add(sat_add(x, k), 1) == sat_add(x, k + 1),
{
}

/// Soundness depends only on the board, the children and the parent.
proof fn lemma_node_ok_same(a: MCTSNode, b: MCTSNode, len: int)
    requires
        node_ok(a, len),
        a.board == b.board,
        a.children@ == b.children@,
        a.parent == b.parent,
    ensures
        node_ok(b, len),
{
    assert(b.spec_board() == a.spec_board());
    assert(b.spec_parent() == a.spec_parent());
    assert forall|j: int| 0 <= j < b.spec_children().len() implies #[trigger] b.spec_children()[j] < len by {
        assert(a.spec_children()[j] == b.spec_children()[j]);
    }
}

/// No child in `children` has more visits than node `b`.
pub open spec fn most_visits(nodes: Seq<MCTSNode>, children: Seq<usize>, b: usize) -> bool {
    forall|j: int| 0 <= j < children.len() ==> #[trigger] nodes[children[j] as int].spec_visits() <= nodes[b as int].spec_visits()
}

/// The most visited of the first `n` children is one of them, and none of
/// them has more visits; there is one exactly when `n` is positive.
pub proof fn lemma_most_visited(nodes: Seq<MCTSNode>, children: Seq<usize>, n: int)
    requires
        0 <= n <= children.len(),
    ensures
        most_visited(nodes, children, n) is None <==> n == 0,
        most_visited(nodes, children, n) matches Some(b) ==> (exists|i: int| 0 <= i < n && children[i] == b)
            && forall|i: int| 0 <= i < n ==> #[trigger] nodes[children[i] as int].spec_visits() <= nodes[b as int].spec_visits(),
    decreases n,
{
    if n > 0 {
        lemma_most_visited(nodes, children, n - 1);
        let b = most_visited(nodes, children, n).unwrap();
        if n - 1 > 0 {
            let p = most_visited(nodes, children, n - 1).unwrap();
            assert forall|i: int| 0 <= i < n implies #[trigger] nodes[children[i] as int].spec_visits() <= nodes[b as int].spec_visits() by {
                if i < n - 1 {
                    assert(nodes[children[i] as int].spec_visits() <= nodes[p as int].spec_visits());
                }
            }
            if b == p {
                let i = choose|i: int| 0 <= i < n - 1 && children[i] == p;
                assert(children[i] == b);
            } else {
                assert(children[n - 1] == b);
            }
        } else {
            assert(children[0] == b);
        }
    }
}

/// Among the first `n` of the `children`, the last one with the most visits.
pub open spec fn most_visited(nodes: Seq<MCTSNode>, children: Seq<usize>, n: int) -> Option<usize>
    decreases n,
{
    if n <= 0 {
        None
    } else {
        let c = children[n - 1];
        match most_visited(nodes, children, n - 1) {
            Some(b) => if nodes[c as int].spec_visits() >= nodes[b as int].spec_visits() { Some(c) } else { Some(b) },
            None => Some(c),
        }
    }
}

} // verus!

verus! {

/// The number of empty cells in the first `k` columns.
pub open spec fn empties(g: Seq<Seq<Cell>>, rows: int, k: int) -> nat
    decreases k,
{
    if k <= 0 { 0 } else { empties(g, rows, k - 1) + count_in_column(g, k - 1, Cell::Empty, rows) }
}

/// Filling one empty cell of column `c` takes one from that column's count
/// of empty cells among the rows that include it.
proof fn lemma_count_fill(g: Seq<Seq<Cell>>, g2: Seq<Seq<Cell>>, r: int, c: int, n: int, other: int)
    requires
        0 <= n <= g.len(),
        g2.len() == g.len(),
        0 <= r < g.len(),
        forall|i: int| 0 <= i < g.len() && i != r ==> #[trigger] g2[i] == g[i],
        g[r][c] == Cell::Empty,
        g2[r][c] != Cell::Empty,
        other != c ==> g2[r][other] == g[r][other],
    ensures
        count_in_column(g2, c, Cell::Empty, n) + (if r < n { 1int } else { 0int }) == count_in_column(g, c, Cell::Empty, n),
        other != c ==> count_in_column(g2, other, Cell::Empty, n) == count_in_column(g, other, Cell::Empty, n),
    decreases n,
{
    if n > 0 {
        lemma_count_fill(g, g2, r, c, n - 1, other);
    }
}

/// Filling one empty cell of column `c` takes one from the empty cells of
/// the columns that include it.
proof fn lemma_empties_fill(g: Seq<Seq<Cell>>, g2: Seq<Seq<Cell>>, rows: int, cols: int, r: int, c: int, k: int)
    requires
        grid_shape(g, rows, cols),
        g2.len() == rows,
        0 <= r < rows,
        0 <= c < cols,
        0 <= k <= cols,
        forall|i: int| 0 <= i < rows && i != r ==> #[trigger] g2[i] == g[i],
        g[r][c] == Cell::Empty,
        g2[r][c] != Cell::Empty,
        forall|j: int| 0 <= j < cols && j != c ==> #[trigger] g2[r][j] == g[r][j],
    ensures
        empties(g2, rows, k) + (if c < k { 1int } else { 0int }) == empties(g, rows, k),
    decreases k,
{
    if k > 0 {
        lemma_empties_fill(g, g2, rows, cols, r, c, k - 1);
        lemma_count_fill(g, g2, r, c, rows, k - 1);
    }
}

/// A drop into a column that can take a piece leaves fewer empty cells.
pub proof fn lemma_drop_fills(g: Seq<Seq<Cell>>, rows: int, cols: int, c: int, cell: Cell)
    requires
        grid_shape(g, rows, cols),
        rows > 0,
        0 <= c < cols,
        !grid_column_full(g, cols, c),
        cell != Cell::Empty,
    ensures
        empties(grid_drop(g, rows, c, cell), rows, cols) < empties(g, rows, cols),
        grid_shape(grid_drop(g, rows, c, cell), rows, cols),
{
    lemma_grid_landing(g, c, rows, 0);
    let r = grid_landing(g, c, rows).unwrap();
    let g2 = grid_drop(g, rows, c, cell);
    assert forall|i: int| 0 <= i < rows implies #[trigger] g2[i].len() == cols by {}
    lemma_empties_fill(g, g2, rows, cols, r, c, cols);
}

/// The player to make the `i`-th move of a playout started by `p0`.
pub open spec fn mover_of(p0: Player, i: int) -> Player {
    if i % 2 == 0 { p0 } else { spec_opponent(p0) }
}

/// The grid after the first `n` moves of a playout from `g0`.
pub open spec fn playout_grid(g0: Seq<Seq<Cell>>, rows: int, p0: Player, moves: Seq<usize>, n: int) -> Seq<Seq<Cell>>
    decreases n,
{
    if n <= 0 {
        g0
    } else {
        grid_drop(playout_grid(g0, rows, p0, moves, n - 1), rows, moves[n - 1] as int, spec_cell(mover_of(p0, n - 1)))
    }
}

/// The winner of a position: player 1 if they have a line, else player 2
/// if they have one, else none.
pub open spec fn playout_winner(g: Seq<Seq<Cell>>, rows: int, cols: int) -> Option<Player> {
    if crate::board::grid_has_win(g, rows, cols, Cell::Player1, SEARCH_LINE as int) {
        Some(Player::Player1)
    } else if crate::board::grid_has_win(g, rows, cols, Cell::Player2, SEARCH_LINE as int) {
        Some(Player::Player2)
    } else {
        None
    }
}

/// A complete playout from `g0` with `p0` to move: the players in turn,
/// each move into a column that can take a piece of a position where the
/// game goes on, until the game ends or no column can take a piece.
pub open spec fn legal_playout(g0: Seq<Seq<Cell>>, rows: int, cols: int, p0: Player, moves: Seq<usize>) -> bool {
    &&& forall|i: int| 0 <= i < moves.len() ==> (#[trigger] moves[i]) < cols
        && !grid_column_full(playout_grid(g0, rows, p0, moves, i), cols, moves[i] as int)
        && !grid_terminal(playout_grid(g0, rows, p0, moves, i), rows, cols, SEARCH_LINE as int)
    &&& ({
        let gf = playout_grid(g0, rows, p0, moves, moves.len() as int);
        grid_terminal(gf, rows, cols, SEARCH_LINE as int) || forall|c: int| 0 <= c < cols ==> #[trigger] grid_column_full(gf, cols, c)
    })
}

/// Extending a playout keeps the positions along its prefix.
pub proof fn lemma_playout_prefix(g0: Seq<Seq<Cell>>, rows: int, p0: Player, a: Seq<usize>, b: Seq<usize>, n: int)
    requires
        0 <= n <= a.len(),
        a.len() <= b.len(),
        forall|i: int| 0 <= i < a.len() ==> a[i] == b[i],
    ensures
        playout_grid(g0, rows, p0, b, n) == playout_grid(g0, rows, p0, a, n),
    decreases n,
{
    if n > 0 {
        lemma_playout_prefix(g0, rows, p0, a, b, n - 1);
    }
}

/// The columns of a board that can take a piece, in order.
fn open_columns_of(board: &Board) -> (r: Vec<usize>)
    requires
        playable_board(*board),
    ensures
        forall|i: int| 0 <= i < r@.len() ==> #[trigger] r@[i] < board.spec_cols() && !grid_column_full(board@, board.spec_cols() as int, r@[i] as int),
        r@.len() == 0 <==> forall|c: int| 0 <= c < board.spec_cols() ==> #[trigger] grid_column_full(board@, board.spec_cols() as int, c),
{
    let mut valid: Vec<usize> = Vec::new();
    let mut col: usize = 0;
    while col < board.cols()
        invariant
            playable_board(*board),
            col <= board.spec_cols(),
            forall|i: int| 0 <= i < valid@.len() ==> #[trigger] valid@[i] < board.spec_cols() && !grid_column_full(board@, board.spec_cols() as int, valid@[i] as int),
            valid@.len() == 0 <==> forall|c: int| 0 <= c < col ==> #[trigger] grid_column_full(board@, board.spec_cols() as int, c),
        decreases board.spec_cols() - col,
    {
        if can_play(board, col) {
            assert(!grid_column_full(board@, board.spec_cols() as int, col as int));
            valid.push(col);
        } else {
            assert(grid_column_full(board@, board.spec_cols() as int, col as int));
        }
        col = col + 1;
    }
    valid
}

impl MCTSTree {
    /// A random playout from node `idx`: moves drawn among the columns that
    /// can take a piece, the players in turn, until someone has a line, the
    /// board is full or no column can take a piece; the winner, if any.
    pub fn simulate(&self, idx: usize) -> (r: Option<Player>)
        requires
            self.wf(),
            idx < self.spec_nodes().len(),
        ensures
            exists|moves: Seq<usize>| #[trigger] legal_playout(
                self.spec_nodes()[idx as int].spec_board()@,
                self.spec_nodes()[idx as int].spec_board().spec_rows() as int,
                self.spec_nodes()[idx as int].spec_board().spec_cols() as int,
                self.spec_nodes()[idx as int].spec_player(),
                moves,
            ) && r == playout_winner(
                playout_grid(
                    self.spec_nodes()[idx as int].spec_board()@,
                    self.spec_nodes()[idx as int].spec_board().spec_rows() as int,
                    self.spec_nodes()[idx as int].spec_player(),
                    moves,
                    moves.len() as int,
                ),
                self.spec_nodes()[idx as int].spec_board().spec_rows() as int,
                self.spec_nodes()[idx as int].spec_board().spec_cols() as int,
            ),
    {
        proof {
            assert(node_ok(self.spec_nodes()[idx as int], self.spec_nodes().len() as int));
        }
        let mut board = self.nodes[idx].board.clone();
        let mut player = self.nodes[idx].player;
        let ghost g0 = board@;
        let ghost p0 = player;
        let ghost rows = board.spec_rows() as int;
        let ghost cols = board.spec_cols() as int;
        let ghost mut moves: Seq<usize> = Seq::empty();
        loop
            invariant
                playable_board(board),
                g0 == self.spec_nodes()[idx as int].spec_board()@,
                p0 == self.spec_nodes()[idx as int].spec_player(),
                rows == self.spec_nodes()[idx as int].spec_board().spec_rows(),
                cols == self.spec_nodes()[idx as int].spec_board().spec_cols(),
                board.spec_rows() == rows,
                board.spec_cols() == cols,
                board@ == playout_grid(g0, rows, p0, moves, moves.len() as int),
                player == mover_of(p0, moves.len() as int),
                forall|i: int| 0 <= i < moves.len() ==> (#[trigger] moves[i]) < cols
                    && !grid_column_full(playout_grid(g0, rows, p0, moves, i), cols, moves[i] as int)
                    && !grid_terminal(playout_grid(g0, rows, p0, moves, i), rows, cols, SEARCH_LINE as int),
            decreases empties(board@, rows, cols),
        {
            if board.has_winning_line(Cell::Player1, SEARCH_LINE) {
                proof {
                    assert(legal_playout(g0, rows, cols, p0, moves));
                }
                return Some(Player::Player1);
            }
            if board.has_winning_line(Cell::Player2, SEARCH_LINE) {
                proof {
                    assert(legal_playout(g0, rows, cols, p0, moves));
                }
                return Some(Player::Player2);
            }
            if board.is_full() {
                proof {
                    assert(crate::game_tree::grid_full(board@, rows, cols)) by {
                        assert forall|i: int, j: int| 0 <= i < rows && 0 <= j < cols implies #[trigger] board@[i][j] != Cell::Empty by {
                            assert(board.in_bounds(i, j));
                            assert(board.at(i, j) != Cell::Empty);
                        }
                    }
                    assert(legal_playout(g0, rows, cols, p0, moves));
                }
                return None;
            }
            let valid = open_columns_of(&board);
            if valid.len() == 0 {
                proof {
                    assert(legal_playout(g0, rows, cols, p0, moves));
                }
                return None;
            }
            let col = choose_one(&valid);
            proof {
                let i = choose|i: int| 0 <= i < valid@.len() && valid@[i] == col;
                assert(valid@[i] == col);
            }
            let ghost before = moves;
            proof {
                lemma_drop_fills(board@, rows, cols, col as int, spec_cell(player));
                assert(!grid_terminal(board@, rows, cols, SEARCH_LINE as int)) by {
                    if crate::game_tree::grid_full(board@, rows, cols) {
                        assert forall|i: int, j: int| board.in_bounds(i, j) implies #[trigger] board.at(i, j) != Cell::Empty by {
                            assert(board@[i][j] != Cell::Empty);
                        }
                    }
                }
            }
            board = play(&board, col, player.cell());
            proof {
                moves = moves.push(col);
                assert forall|i: int| 0 <= i <= before.len() implies #[trigger] playout_grid(g0, rows, p0, moves, i) == playout_grid(g0, rows, p0, before, i) by {
                    lemma_playout_prefix(g0, rows, p0, before, moves, i);
                }
                assert(moves[before.len() as int] == col);
                assert(playout_grid(g0, rows, p0, moves, moves.len() as int) == grid_drop(
                    playout_grid(g0, rows, p0, moves, before.len() as int),
                    rows,
                    col as int,
                    spec_cell(mover_of(p0, before.len() as int)),
                ));
                assert forall|i: int| 0 <= i < moves.len() implies (#[trigger] moves[i]) < cols
                    && !grid_column_full(playout_grid(g0, rows, p0, moves, i), cols, moves[i] as int)
                    && !grid_terminal(playout_grid(g0, rows, p0, moves, i), rows, cols, SEARCH_LINE as int) by {
                    if i < before.len() {
                        assert(moves[i] == before[i]);
                    }
                }
            }
            player = player.opponent();
        }
    }

    /// Completes one search iteration along `path`, the nodes the caller
    /// descended through from the root: a leaf that was visited before is
    /// expanded and its last new child added to the path; a random playout
    /// from the end of the path is then backed up along it. When the path
    /// ends at a node without children, each node of the tree as it was
    /// gains a visit for every time the path lists it, and the wins of one
    /// playout, whichever player won it.
    pub fn finish_iteration(&mut self, path: Vec<usize>)
        requires
            old(self).wf(),
            path@.len() > 0,
            forall|j: int| 0 <= j < path@.len() ==> #[trigger] path@[j] < old(self).spec_nodes().len(),
        ensures
            final(self).wf(),
            final(self).spec_root() == old(self).spec_root(),
            ({
                let n = old(self).spec_nodes()[path@.last() as int];
                let g = n.spec_board()@;
                let cols = n.spec_board().spec_cols() as int;
                &&& n.spec_visits() == 0 ==> final(self).spec_nodes().len() == old(self).spec_nodes().len()
                &&& n.spec_visits() > 0 ==> final(self).spec_nodes().len() == old(self).spec_nodes().len() + open_columns(g, cols, cols).len()
            }),
            old(self).spec_nodes()[path@.last() as int].spec_children().len() == 0 ==> forall|i: int|
                0 <= i < old(self).spec_nodes().len() ==> (#[trigger] final(self).spec_nodes()[i]).spec_visits()
                    == sat_add(old(self).spec_nodes()[i].spec_visits(), occurrences(path@, i as usize)),
            old(self).spec_nodes()[path@.last() as int].spec_children().len() == 0 ==> exists|w: Option<Player>|
                #[trigger] wins_backed(old(self).spec_nodes(), final(self).spec_nodes(), path@, w),
    {
        let ghost start = self.nodes@;
        let ghost full = path@;
        let ghost leaf_start = start[full.last() as int].spec_children().len() == 0;
        let ghost mut added: Option<usize> = None;
        let mut path = path;
        let current = path[path.len() - 1];
        if self.nodes[current].visits > 0 {
            self.expand_node(current);
            let k = self.nodes[current].children.len();
            if k > 0 {
                proof {
                    assert(node_ok(self.spec_nodes()[current as int], self.spec_nodes().len() as int));
                    assert(self.spec_nodes()[current as int].spec_children()[k - 1] < self.spec_nodes().len());
                }
                let child = self.nodes[current].children[k - 1];
                path.push(child);
                let total = self.nodes.len();
                proof {
                    added = Some(child);
                    if leaf_start {
                        let n = start[current as int];
                        let g = n.spec_board()@;
                        let cols = n.spec_board().spec_cols() as int;
                        let open = open_columns(g, cols, cols);
                        let kids = self.spec_nodes()[current as int].spec_children();
                        assert(kids == n.spec_children() + Seq::new(open.len(), |j: int| (start.len() + j) as usize));
                        assert(n.spec_children().len() == 0);
                        assert(kids.len() == open.len());
                        assert(self.spec_nodes().len() == start.len() + open.len());
                        assert(start.len() + (k - 1) < total);
                        assert(kids[k - 1] == (start.len() + (k - 1)) as usize);
                        assert(child == kids[k - 1]);
                        assert(child >= start.len());
                    }
                }
            }
        }
        let ghost mid = self.nodes@;
        proof {
            assert(added is None ==> path@ == full);
            assert(added is Some ==> path@ == full.push(added->Some_0));
            assert forall|i: int| 0 <= i < start.len() implies {
                &&& (#[trigger] mid[i]).spec_visits() == start[i].spec_visits()
                &&& mid[i].spec_wins() == start[i].spec_wins()
                &&& mid[i].spec_player() == start[i].spec_player()
                &&& (leaf_start ==> occurrences(path@, i as usize) == occurrences(full, i as usize))
            } by {
                if let Some(c) = added {
                    lemma_occurrences_push(full, c, i as usize);
                }
            }
        }
        let leaf = path[path.len() - 1];
        let winner = self.simulate(leaf);
        self.backpropagate(path, winner);
        proof {
            if leaf_start {
                assert(wins_backed(start, self.spec_nodes(), full, winner));
            }
        }
    }
}

/// Every node of `before` gained the wins of one playout won by `winner`,
/// once for each time `path` lists it.
pub open spec fn wins_backed(before: Seq<MCTSNode>, after: Seq<MCTSNode>, path: Seq<usize>, winner: Option<Player>) -> bool {
    forall|i: int|
        0 <= i < before.len() ==> (#[trigger] after[i]).spec_wins() == sat_add(
            before[i].spec_wins(),
            if winner == Some(spec_opponent(before[i].spec_player())) { occurrences(path, i as usize) } else { 0 },
        )
}

/// Listing one more index counts it once more.
proof fn lemma_occurrences_push(s: Seq<usize>, x: usize, i: usize)
    ensures
        occurrences(s.push(x), i) == occurrences(s, i) + if x == i { 1nat } else { 0nat },
{
    assert(s.push(x).drop_last() =~= s);
}

} // verus!
