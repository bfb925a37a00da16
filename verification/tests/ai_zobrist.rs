use connect_four::board::Board;
use connect_four::cell::Cell;
use connect_four::player::Player;
use connect_four::zobrist::{board_to_bytes, CollisionDetector, HashHistory, HashVerifier, IncrementalHasher, ZobristHash, ZobristKeys};

#[test]
fn test_zobrist_keys_creation() {
    let keys = ZobristKeys::new();
    assert_eq!(keys.position_keys().len(), 6);
    assert_eq!(keys.position_keys()[0].len(), 7);
}

#[test]
fn test_zobrist_keys_with_seed() {
    let keys1 = ZobristKeys::with_seed(12345);
    let keys2 = ZobristKeys::with_seed(12345);
    assert_eq!(keys1.player_keys(), keys2.player_keys());
}

#[test]
fn test_zobrist_hash_deterministic() {
    let keys = ZobristKeys::with_seed(12345);
    let board = Board::new(6, 7);
    let hash1 = keys.hash(&board, Player::Player1);
    let hash2 = keys.hash(&board, Player::Player1);
    assert_eq!(hash1, hash2);
}

#[test]
fn test_zobrist_hash_different_players() {
    let keys = ZobristKeys::new();
    let board = Board::new(6, 7);
    let hash1 = keys.hash(&board, Player::Player1);
    let hash2 = keys.hash(&board, Player::Player2);
    assert_ne!(hash1, hash2);
}

#[test]
fn test_incremental_hasher() {
    let _keys = ZobristKeys::new();
    let board = Board::new(6, 7);
    let mut hasher = IncrementalHasher::with_default_keys(&board, Player::Player1);
    let initial_hash = hasher.current_hash();
    hasher.apply_move(5, 3, Player::Player1, Cell::Player1);
    assert_ne!(hasher.current_hash(), initial_hash);
}

#[test]
fn test_hash_history() {
    let mut history = HashHistory::default();
    let hash = ZobristHash::new(12345, 6, 7);
    history.push(hash);
    assert_eq!(history.len(), 1);
    assert_eq!(history.count_occurrences(hash), 1);
    assert!(!history.check_repetition(hash));
}

#[test]
fn test_hash_history_repetition() {
    let mut history = HashHistory::default();
    let hash = ZobristHash::new(12345, 6, 7);
    history.push(hash);
    history.push(hash);
    history.push(hash);
    assert!(history.check_repetition(hash));
    assert_eq!(history.count_occurrences(hash), 3);
}

#[test]
fn test_hash_history_twofold() {
    let mut history = HashHistory::default();
    let hash = ZobristHash::new(12345, 6, 7);
    history.push(hash);
    history.push(hash);
    assert!(!history.check_repetition(hash));
    assert!(history.check_twofold(hash));
}

#[test]
fn zobrist_test_zobrist_hash() {
    let hash = ZobristHash::new(12345, 6, 7);
    assert_eq!(hash.hash, 12345);
    assert_eq!(hash.rows, 6);
    assert_eq!(hash.cols, 7);
}

#[test]
fn test_zobrist_hash_metadata() {
    let mut hash = ZobristHash::new(12345, 6, 7);
    hash.set_metadata(67890);
    assert_eq!(hash.metadata, 67890);
}

#[test]
fn test_collision_detector() {
    let mut detector = CollisionDetector::new();
    let hash = 12345;
    let bytes = vec![1, 2, 3, 4, 5];
    assert!(!detector.check_collision(hash, &bytes));
    assert_eq!(detector.collisions(), 0);
    assert!(!detector.check_collision(hash, &bytes));
    assert_eq!(detector.collisions(), 0);
    let different_bytes = vec![5, 4, 3, 2, 1];
    assert!(detector.check_collision(hash, &different_bytes));
    assert_eq!(detector.collisions(), 1);
}

#[test]
fn test_hash_verifier() {
    let keys = ZobristKeys::new();
    let verifier = HashVerifier::new(keys);
    let board = Board::new(6, 7);
    let full_hash = verifier.keys.hash(&board, Player::Player1);
    assert!(verifier.verify(&board, Player::Player1, full_hash));
}

#[test]
fn test_board_to_bytes() {
    let board = Board::new(6, 7);
    let bytes = board_to_bytes(&board);
    assert_eq!(bytes.len(), 42);
}

#[test]
fn zobrist_incremental_matches_full_hash() {
    let keys = ZobristKeys::with_seed(7);
    let mut board = Board::new(6, 7);
    let mut hasher = IncrementalHasher::new(ZobristKeys::with_seed(7), &board, Player::Player1);
    board.set_at(5, 2, Cell::Player1).unwrap();
    hasher.apply_move(5, 2, Player::Player1, Cell::Player1);
    assert_eq!(hasher.current_hash(), keys.hash(&board, Player::Player1));
}

#[test]
fn zobrist_remove_undoes_apply() {
    let board = Board::new(6, 7);
    let mut hasher = IncrementalHasher::with_default_keys(&board, Player::Player1);
    let h0 = hasher.current_hash();
    hasher.apply_move(5, 2, Player::Player1, Cell::Player1);
    hasher.remove_move(5, 2, Player::Player1, Cell::Player1);
    assert_eq!(hasher.current_hash(), h0);
}

#[test]
fn history_pop_gives_back_the_pushed_hash() {
    let mut history = HashHistory::new(2);
    let a = ZobristHash::new(1, 6, 7);
    let b = ZobristHash::new(2, 6, 7);
    let c = ZobristHash::new(3, 6, 7);
    history.push(a);
    history.push(b);
    assert_eq!(history.pop(), Some(b));
    assert_eq!(history.len(), 1);
    history.push(b);
    history.push(c);
    assert_eq!(history.len(), 2);
    assert_eq!(history.pop(), Some(c));
    assert_eq!(history.pop(), Some(b));
    assert_eq!(history.pop(), None);
}

#[test]
fn zobrist_hashes_for_the_two_players_differ_by_the_player_keys() {
    let keys = ZobristKeys::with_seed(7);
    let mut board = Board::new(6, 7);
    board.set_at(5, 3, Cell::Player1).unwrap();
    board.set_at(5, 4, Cell::Player2).unwrap();
    let pk = keys.player_keys();
    assert_eq!(keys.hash(&board, Player::Player1) ^ keys.hash(&board, Player::Player2), pk[0] ^ pk[1]);
}

#[test]
fn zobrist_switching_player_gives_the_opponent_hash() {
    let keys = ZobristKeys::with_seed(11);
    let mut board = Board::new(6, 7);
    board.set_at(5, 0, Cell::Player2).unwrap();
    let mut h = IncrementalHasher::new(keys.clone(), &board, Player::Player1);
    h.switch_player();
    assert_eq!(h.current_player(), Player::Player2);
    assert_eq!(h.current_hash(), keys.hash(&board, Player::Player2));
    h.switch_player();
    assert_eq!(h.current_player(), Player::Player1);
    assert_eq!(h.current_hash(), keys.hash(&board, Player::Player1));
}

#[test]
fn zobrist_hash_after_a_drop_is_one_update() {
    let keys = ZobristKeys::with_seed(3);
    let mut board = Board::new(6, 7);
    board.set_at(5, 2, Cell::Player1).unwrap();
    let mut after = board.clone();
    after.set_at(4, 2, Cell::Player2).unwrap();
    for q in [Player::Player1, Player::Player2] {
        let updated = keys.update_hash(keys.hash(&board, q), 4, 2, Player::Player2, Cell::Player2);
        assert_eq!(keys.hash(&after, q), updated);
        assert_ne!(updated, keys.hash(&board, q));
    }
}
