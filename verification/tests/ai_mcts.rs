use connect_four::board::Board;
use connect_four::cell::Cell;
use connect_four::mcts::MCTSTree;
use connect_four::player::Player;

#[test]
fn mcts_tree_expands_every_open_column() {
    let mut tree = MCTSTree::new();
    let mut board = Board::new(6, 7);
    for r in 0..6 {
        board.set_at(r, 2, if r % 2 == 0 { Cell::Player1 } else { Cell::Player2 }).unwrap();
    }
    tree.start(board, Player::Player1);
    tree.expand_node(0);
    assert_eq!(tree.len(), 7);
    let root = tree.node(0);
    assert_eq!(root.children().len(), 6);
    let moves: Vec<Option<usize>> = root.children().iter().map(|&c| tree.node(c).move_made()).collect();
    assert_eq!(moves, vec![Some(0), Some(1), Some(3), Some(4), Some(5), Some(6)]);
    let child = tree.node(root.children()[0]);
    assert_eq!(child.player(), Player::Player2);
    assert_eq!(child.parent(), Some(0));
    assert_eq!(child.board().get_at(5, 0), Some(Cell::Player1));
}

#[test]
fn mcts_backpropagate_counts_visits_and_wins() {
    let mut tree = MCTSTree::new();
    tree.start(Board::new(6, 7), Player::Player1);
    tree.expand_node(0);
    let child = tree.node(0).children()[3];
    tree.backpropagate(vec![0, child], Some(Player::Player1));
    assert_eq!(tree.node(0).visits(), 1);
    assert_eq!(tree.node(0).wins(), 0);
    assert_eq!(tree.node(child).visits(), 1);
    assert_eq!(tree.node(child).wins(), 1);
    assert_eq!(tree.get_best_move(), Some(3));
}

#[test]
fn mcts_playout_on_won_board_reports_winner() {
    let mut board = Board::new(6, 7);
    for c in 0..5 {
        board.set_at(5, c, Cell::Player2).unwrap();
    }
    let mut tree = MCTSTree::new();
    tree.start(board, Player::Player1);
    assert_eq!(tree.simulate(0), Some(Player::Player2));
}

#[test]
fn mcts_iterations_grow_the_tree() {
    let mut tree = MCTSTree::new();
    tree.start(Board::new(6, 7), Player::Player1);
    tree.finish_iteration(vec![0]);
    assert_eq!(tree.len(), 1);
    assert_eq!(tree.node(0).visits(), 1);
    tree.finish_iteration(vec![0]);
    assert_eq!(tree.len(), 8);
    assert_eq!(tree.node(0).visits(), 2);
    assert!(tree.get_best_move().is_some());
}
