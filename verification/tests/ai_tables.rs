use connect_four::board::Board;
use connect_four::player::Player;
use connect_four::transposition::{EntryType, TranspositionBenchmark, TranspositionConfig, TranspositionEntry, TranspositionStats, TranspositionTable, ZobristKeys};

#[test]
fn test_transposition_entry_creation() {
    let entry = TranspositionEntry::new(12345, Some(3), 100, 5, EntryType::Exact, 0);
    assert_eq!(entry.hash, 12345);
    assert_eq!(entry.best_move, Some(3));
    assert_eq!(entry.score, 100);
    assert_eq!(entry.depth, 5);
}

#[test]
fn test_entry_type_from_bounds() {
    assert_eq!(EntryType::from_bounds(50, 0, 100), EntryType::Exact);
    assert_eq!(EntryType::from_bounds(-100, 0, 100), EntryType::UpperBound);
    assert_eq!(EntryType::from_bounds(200, 0, 100), EntryType::LowerBound);
}

#[test]
fn test_transposition_config_sizes() {
    let small = TranspositionConfig::small();
    assert_eq!(small.max_entries, 100_000);
    let medium = TranspositionConfig::medium();
    assert_eq!(medium.max_entries, 1_000_000);
    let large = TranspositionConfig::large();
    assert_eq!(large.max_entries, 10_000_000);
}

#[test]
fn test_transposition_table_creation() {
    let table = TranspositionTable::default();
    assert_eq!(table.entry_count(), 0);
    assert_eq!(table.entry_count() as f64 / table.capacity() as f64, 0.0);
}

#[test]
fn test_transposition_table_store_lookup() {
    let mut table = TranspositionTable::default();
    let entry = TranspositionEntry::new(12345, Some(3), 100, 5, EntryType::Exact, 0);
    table.store(entry);
    let result = table.lookup(12345, 5, i32::MIN, i32::MAX);
    assert!(result.is_some());
    assert_eq!(result.unwrap().best_move, Some(3));
}

#[test]
fn test_transposition_table_clear() {
    let mut table = TranspositionTable::default();
    let entry = TranspositionEntry::new(12345, Some(3), 100, 5, EntryType::Exact, 0);
    table.store(entry);
    assert_eq!(table.entry_count(), 1);
    table.clear();
    assert_eq!(table.entry_count(), 0);
}

#[test]
fn test_transposition_stats() {
    let mut stats = TranspositionStats::default();
    stats.record_lookup();
    stats.record_hit();
    stats.record_lookup();
    stats.record_miss();
    assert_eq!(stats.lookups, 2);
    assert_eq!(stats.hits, 1);
    assert_eq!(stats.misses, 1);
    assert_eq!(stats.hits as f64 / stats.lookups as f64, 0.5);
}

#[test]
fn transposition_test_zobrist_hash() {
    let zobrist = ZobristKeys::new();
    let hash1 = zobrist.hash(&Board::new(6, 7), Player::Player1);
    let hash2 = zobrist.hash(&Board::new(6, 7), Player::Player1);
    assert_eq!(hash1, hash2);
}

#[test]
fn test_transposition_table_resize() {
    let mut table = TranspositionTable::new(TranspositionConfig::small());
    let entry = TranspositionEntry::new(12345, Some(3), 100, 5, EntryType::Exact, 0);
    table.store(entry);
    table.resize(200_000);
    assert_eq!(table.entry_count(), 1);
}

#[test]
fn transposition_table_sizes_are_powers_of_two() {
    let table = TranspositionTable::new(TranspositionConfig { max_entries: 1000, ..TranspositionConfig::small() });
    assert_eq!(table.capacity(), 1024);
    let table = TranspositionTable::new(TranspositionConfig { max_entries: 0, ..TranspositionConfig::small() });
    assert_eq!(table.capacity(), 1);
}

#[test]
fn transposition_lookup_respects_depth_and_window() {
    let mut table = TranspositionTable::new(TranspositionConfig { max_entries: 16, ..TranspositionConfig::small() });
    table.store(TranspositionEntry::new(7, None, 40, 3, EntryType::LowerBound, 0));
    assert!(table.lookup(7, 4, 0, 30).is_none());
    assert!(table.lookup(7, 3, 0, 50).is_none());
    assert!(table.lookup(7, 3, 0, 30).is_some());
    let s = table.stats();
    assert_eq!((s.lookups, s.hits, s.misses), (3, 1, 2));
}

#[test]
fn transposition_collision_replacement_rules() {
    let mut table = TranspositionTable::new(TranspositionConfig { max_entries: 4, ..TranspositionConfig::small() });
    table.store(TranspositionEntry::new(1, None, 0, 5, EntryType::Exact, 0));
    // Hash 5 shares slot 1 in a table of 4; shallower and not newer: kept out.
    table.store(TranspositionEntry::new(5, None, 0, 2, EntryType::Exact, 0));
    assert!(table.lookup(1, 0, i32::MIN, i32::MAX).is_some());
    // Deeper: replaces.
    table.store(TranspositionEntry::new(5, None, 0, 9, EntryType::Exact, 0));
    assert!(table.lookup(5, 0, i32::MIN, i32::MAX).is_some());
    assert_eq!(table.stats().collisions, 1);
}

#[test]
fn transposition_age_wraps() {
    let mut table = TranspositionTable::new(TranspositionConfig { max_entries: 2, ..TranspositionConfig::small() });
    for _ in 0..256 {
        table.increment_age();
    }
    assert_eq!(table.current_age(), 0);
    table.increment_age();
    assert_eq!(table.stats().current_age, 1);
}

#[test]
fn transposition_update_hash_twice_restores() {
    let keys = ZobristKeys::new();
    let h = keys.hash(&Board::new(6, 7), Player::Player2);
    let h1 = keys.update_hash(h, 5, 3, Player::Player2);
    assert_eq!(keys.update_hash(h1, 5, 3, Player::Player2), h);
}

#[test]
fn benchmark_passes_count_hits_and_lookups() {
    let mut bench = TranspositionBenchmark::new(TranspositionConfig::small());
    assert_eq!(bench.lookup_pass(10), 0);
    bench.storage_pass(5);
    assert_eq!(bench.lookup_pass(10), 5);
    let stats = bench.table().stats();
    assert_eq!(stats.lookups, 20);
    assert_eq!(stats.hits, 5);
    assert_eq!(stats.misses, 15);
    assert_eq!(stats.stores, 5);
    let mut mixed = TranspositionBenchmark::new(TranspositionConfig::small());
    assert_eq!(mixed.mixed_pass(6), 0);
}
