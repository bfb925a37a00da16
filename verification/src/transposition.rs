//! A table of searched positions, one slot per hash index, with its
//! replacement rules, and the Zobrist keys it hashes positions with.

use vstd::prelude::*;
use crate::board::Board;
use crate::cell::Cell;
use crate::player::Player;

verus! {

/// How a stored score relates to the true value of a position.
#[derive(Clone, Copy, PartialEq, Eq, Debug, Structural)]
pub enum EntryType {
    /// The score is the value.
    Exact,
    /// The value is at least the score.
    LowerBound,
    /// The value is at most the score.
    UpperBound,
}

/// What a search found for one position.
#[derive(Clone, Copy, PartialEq, Eq, Debug, Structural)]
pub struct TranspositionEntry {
    /// The position's hash.
    pub hash: u64,
    /// The best move found, if any.
    pub best_move: Option<usize>,
    /// The score found.
    pub score: i32,
    /// The depth searched.
    pub depth: u8,
    /// How the score relates to the value.
    pub entry_type: EntryType,
    /// The table's age when the entry was made.
    pub age: u8,
}

/// Whether entry `a` should take the place of entry `b` at table age
/// `age`: `a` is current and `b` is not, or `a` is deeper, or `a` is exact
/// and `b` is not.
pub open spec fn spec_should_replace(a: TranspositionEntry, b: TranspositionEntry, age: u8) -> bool {
    ||| (a.age == age && b.age != age)
    ||| a.depth > b.depth
    ||| (a.entry_type == EntryType::Exact && b.entry_type != EntryType::Exact)
}

impl TranspositionEntry {
    /// An entry with the given fields.
    pub fn new(hash: u64, best_move: Option<usize>, score: i32, depth: u8, entry_type: EntryType, age: u8) -> (r: Self)
        ensures
            r == (TranspositionEntry { hash, best_move, score, depth, entry_type, age }),
    {
        TranspositionEntry { hash, best_move, score, depth, entry_type, age }
    }

    /// Whether this entry should take the place of `other` at table age
    /// `current_age`.
    pub fn should_replace(&self, other: &Self, current_age: u8) -> (r: bool)
        ensures
            r == spec_should_replace(*self, *other, current_age),
    {
        if self.age == current_age && other.age != current_age {
            return true;
        }
        if self.depth > other.depth {
            return true;
        }
        if self.entry_type == EntryType::Exact && other.entry_type != EntryType::Exact {
            return true;
        }
        false
    }
}

/// The kind of a score found with the window (`alpha`, `beta`): an upper
/// bound at or below `alpha`, a lower bound at or above `beta`, else exact.
pub open spec fn spec_from_bounds(score: i32, alpha: i32, beta: i32) -> EntryType {
    if score <= alpha {
        EntryType::UpperBound
    } else if score >= beta {
        EntryType::LowerBound
    } else {
        EntryType::Exact
    }
}

/// Whether a stored score of the given kind settles a search with the
/// window (`alpha`, `beta`).
pub open spec fn spec_matches_bounds(t: EntryType, score: i32, alpha: i32, beta: i32) -> bool {
    match t {
        EntryType::Exact => alpha < score < beta,
        EntryType::LowerBound => score >= beta,
        EntryType::UpperBound => score <= alpha,
    }
}

impl EntryType {
    /// The kind of a score found with the window (`alpha`, `beta`).
    pub fn from_bounds(score: i32, alpha: i32, beta: i32) -> (r: Self)
        ensures
            r == spec_from_bounds(score, alpha, beta),
    {
        if score <= alpha {
            EntryType::UpperBound
        } else if score >= beta {
            EntryType::LowerBound
        } else {
            EntryType::Exact
        }
    }

    /// Whether a stored score of this kind settles a search with the window
    /// (`alpha`, `beta`).
    pub fn matches_bounds(&self, score: i32, alpha: i32, beta: i32) -> (r: bool)
        ensures
            r == spec_matches_bounds(*self, score, alpha, beta),
    {
        match self {
            EntryType::Exact => score > alpha && score < beta,
            EntryType::LowerBound => score >= beta,
            EntryType::UpperBound => score <= alpha,
        }
    }
}

/// A kind found from a window settles a search with that same window.
pub proof fn lemma_from_bounds_matches(score: i32, alpha: i32, beta: i32)
    ensures
        spec_matches_bounds(spec_from_bounds(score, alpha, beta), score, alpha, beta),
{
}

/// How a full slot is given up.
#[derive(Clone, Copy, PartialEq, Eq, Debug, Structural)]
pub enum ReplacementStrategy {
    /// Always replace.
    AlwaysReplace,
    /// Replace shallower entries.
    DepthPreferred,
    /// Replace older entries.
    AgePreferred,
    /// A deep table and a shallow one.
    TwoTier,
}

/// The settings of a table.
#[derive(Clone, Copy, PartialEq, Eq, Debug, Structural)]
pub struct TranspositionConfig {
    /// The number of slots asked for (rounded up to a power of two).
    pub max_entries: usize,
    /// Whether the age advances.
    pub enable_aging: bool,
    /// Whether an entry of another position may take a full slot.
    pub enable_replacement: bool,
    /// The replacement strategy.
    pub replacement_strategy: ReplacementStrategy,
}

/// The default settings: a million slots, aging and replacement on,
/// depth-preferred.
pub open spec fn spec_default_config() -> TranspositionConfig {
    TranspositionConfig {
        max_entries: 1_000_000,
        enable_aging: true,
        enable_replacement: true,
        replacement_strategy: ReplacementStrategy::DepthPreferred,
    }
}

impl Default for TranspositionConfig {
    fn default() -> (r: Self)
        ensures
            r == spec_default_config(),
    {
        TranspositionConfig {
            max_entries: 1_000_000,
            enable_aging: true,
            enable_replacement: true,
            replacement_strategy: ReplacementStrategy::DepthPreferred,
        }
    }
}

impl TranspositionConfig {
    /// The default settings with a hundred thousand slots.
    pub fn small() -> (r: Self)
        ensures
            r == (TranspositionConfig { max_entries: 100_000, ..spec_default_config() }),
    {
        TranspositionConfig { max_entries: 100_000, ..Default::default() }
    }

    /// The default settings with a million slots.
    pub fn medium() -> (r: Self)
        ensures
            r == (TranspositionConfig { max_entries: 1_000_000, ..spec_default_config() }),
    {
        TranspositionConfig { max_entries: 1_000_000, ..Default::default() }
    }

    /// The default settings with ten million slots.
    pub fn large() -> (r: Self)
        ensures
            r == (TranspositionConfig { max_entries: 10_000_000, ..spec_default_config() }),
    {
        TranspositionConfig { max_entries: 10_000_000, ..Default::default() }
    }
}

/// One more, stopping at the largest `usize`.
pub open spec fn sat_inc(x: usize) -> usize {
    if x < usize::MAX { (x + 1) as usize } else { x }
}

/// `x` increased by `n`, stopping at the largest `usize`.
pub open spec fn sat_add(x: usize, n: int) -> usize {
    if x + n < usize::MAX { (x + n) as usize } else { usize::MAX }
}

/// Counts of what a table has done.
#[derive(Clone, Copy, PartialEq, Eq, Debug, Structural)]
pub struct TranspositionStats {
    /// Lookups made.
    pub lookups: usize,
    /// Lookups that found an entry.
    pub hits: usize,
    /// Lookups that found none.
    pub misses: usize,
    /// Entries put into empty slots.
    pub stores: usize,
    /// Entries that replaced another.
    pub replacements: usize,
    /// Replacements of another position's entry.
    pub collisions: usize,
    /// The table's age.
    pub current_age: u8,
}

/// All counts zero.
pub open spec fn spec_zero_stats() -> TranspositionStats {
    TranspositionStats { lookups: 0, hits: 0, misses: 0, stores: 0, replacements: 0, collisions: 0, current_age: 0 }
}

impl Default for TranspositionStats {
    fn default() -> (r: Self)
        ensures
            r == spec_zero_stats(),
    {
        TranspositionStats { lookups: 0, hits: 0, misses: 0, stores: 0, replacements: 0, collisions: 0, current_age: 0 }
    }
}

impl TranspositionStats {
    /// Counts a lookup.
    pub fn record_lookup(&mut self)
        ensures
            *final(self) == (TranspositionStats { lookups: sat_inc(old(self).lookups), ..*old(self) }),
    {
        self.lookups = self.lookups.saturating_add(1);
    }

    /// Counts a hit.
    pub fn record_hit(&mut self)
        ensures
            *final(self) == (TranspositionStats { hits: sat_inc(old(self).hits), ..*old(self) }),
    {
        self.hits = self.hits.saturating_add(1);
    }

    /// Counts a miss.
    pub fn record_miss(&mut self)
        ensures
            *final(self) == (TranspositionStats { misses: sat_inc(old(self).misses), ..*old(self) }),
    {
        self.misses = self.misses.saturating_add(1);
    }

    /// Counts a store into an empty slot.
    pub fn record_store(&mut self)
        ensures
            *final(self) == (TranspositionStats { stores: sat_inc(old(self).stores), ..*old(self) }),
    {
        self.stores = self.stores.saturating_add(1);
    }

    /// Counts a replacement.
    pub fn record_replacement(&mut self)
        ensures
            *final(self) == (TranspositionStats { replacements: sat_inc(old(self).replacements), ..*old(self) }),
    {
        self.replacements = self.replacements.saturating_add(1);
    }

    /// Counts a collision.
    pub fn record_collision(&mut self)
        ensures
            *final(self) == (TranspositionStats { collisions: sat_inc(old(self).collisions), ..*old(self) }),
    {
        self.collisions = self.collisions.saturating_add(1);
    }
}

} // verus!

verus! {

/// Whether `n` is a power of two.
pub open spec fn is_pow2(n: nat) -> bool
    decreases n,
{
    if n == 1 {
        true
    } else if n < 2 || n % 2 == 1 {
        false
    } else {
        is_pow2(n / 2)
    }
}

/// `size` is the least power of two at or above `n` (and at least 1).
pub open spec fn least_pow2_at_least(size: int, n: int) -> bool {
    size >= 1 && is_pow2(size as nat) && size >= n && (size == 1 || size / 2 < n)
}

/// The largest argument whose next power of two fits in a `usize`.
pub open spec fn size_limit() -> int {
    usize::MAX / 2 + 1
}

/// The least power of two at or above `n` (`usize::next_power_of_two`).
fn next_power_of_two(n: usize) -> (r: usize)
    requires
        n <= size_limit(),
    ensures
        least_pow2_at_least(r as int, n as int),
{
    let mut p: usize = 1;
    while p < n
        invariant
            n <= size_limit(),
            p >= 1,
            is_pow2(p as nat),
            p == 1 || p / 2 < n,
        decreases 2 * n - p,
    {
        assert(is_pow2((p * 2) as nat)) by {
            assert((p * 2) as nat / 2 == p as nat);
        }
        p = p * 2;
    }
    p
}

/// The slot of a hash in a table of `len` slots: its low bits.
pub open spec fn slot(hash: u64, len: int) -> int {
    ((hash as usize) & ((len - 1) as usize)) as int
}

/// A slot lies inside the table.
pub proof fn lemma_slot_bound(hash: u64, len: usize)
    requires
        len >= 1,
    ensures
        0 <= slot(hash, len as int) < len,
{
    let x: usize = hash as usize;
    let m: usize = (len - 1) as usize;
    assert(x & m <= m) by (bit_vector);
}

/// The entry a lookup returns: the one in the hash's slot, when it is for
/// that hash, at least as deep as asked, and settles the window.
pub open spec fn probe(slots: Seq<Option<TranspositionEntry>>, hash: u64, depth: u8, alpha: i32, beta: i32) -> Option<TranspositionEntry> {
    match slots[slot(hash, slots.len() as int)] {
        Some(e) => if e.hash == hash && e.depth >= depth && spec_matches_bounds(e.entry_type, e.score, alpha, beta) {
            Some(e)
        } else {
            None
        },
        None => None,
    }
}

/// A lookup gives back only the entry in the hash's own slot, and only when
/// that entry is for the hash looked up and was searched at least as deep.
pub proof fn lemma_probe_own_hash(slots: Seq<Option<TranspositionEntry>>, hash: u64, depth: u8, alpha: i32, beta: i32)
    ensures
        probe(slots, hash, depth, alpha, beta) matches Some(e) ==> e.hash == hash && e.depth >= depth && slots[slot(
            hash,
            slots.len() as int,
        )] == Some(e),
{
}

/// A lookup finds an entry just put in its slot, when asked no deeper than
/// the entry was searched and the entry settles the window.
pub proof fn lemma_probe_after_put(
    slots: Seq<Option<TranspositionEntry>>,
    e: TranspositionEntry,
    depth: u8,
    alpha: i32,
    beta: i32,
)
    requires
        0 <= slot(e.hash, slots.len() as int) < slots.len(),
        depth <= e.depth,
        spec_matches_bounds(e.entry_type, e.score, alpha, beta),
    ensures
        probe(slots.update(slot(e.hash, slots.len() as int), Some(e)), e.hash, depth, alpha, beta) == Some(e),
{
}

/// Whether a store puts the entry in its slot: the slot is empty, or it
/// holds an entry the new one should replace, of the same position or (with
/// replacement on) of another.
pub open spec fn store_takes(slots: Seq<Option<TranspositionEntry>>, entry: TranspositionEntry, age: u8, replace_other: bool) -> bool {
    match slots[slot(entry.hash, slots.len() as int)] {
        Some(existing) => (existing.hash == entry.hash || replace_other) && spec_should_replace(entry, existing, age),
        None => true,
    }
}

/// The slots after a store.
pub open spec fn stored(slots: Seq<Option<TranspositionEntry>>, entry: TranspositionEntry, age: u8, replace_other: bool) -> Seq<Option<TranspositionEntry>> {
    if store_takes(slots, entry, age, replace_other) {
        slots.update(slot(entry.hash, slots.len() as int), Some(entry))
    } else {
        slots
    }
}

/// The counts after a store: a store into an empty slot, a replacement,
/// and for another position's entry also a collision.
pub open spec fn store_stats(st: TranspositionStats, slots: Seq<Option<TranspositionEntry>>, entry: TranspositionEntry, age: u8, replace_other: bool) -> TranspositionStats {
    match slots[slot(entry.hash, slots.len() as int)] {
        Some(existing) => if store_takes(slots, entry, age, replace_other) {
            if existing.hash == entry.hash {
                TranspositionStats { replacements: sat_inc(st.replacements), ..st }
            } else {
                TranspositionStats { collisions: sat_inc(st.collisions), replacements: sat_inc(st.replacements), ..st }
            }
        } else {
            st
        },
        None => TranspositionStats { stores: sat_inc(st.stores), ..st },
    }
}

/// The number of full slots among the first `n`.
pub open spec fn count_full(slots: Seq<Option<TranspositionEntry>>, n: int) -> nat
    decreases n,
{
    if n <= 0 {
        0
    } else {
        count_full(slots, n - 1) + if slots[n - 1] is Some { 1nat } else { 0nat }
    }
}

/// `size` empty slots.
pub open spec fn empty_slots(size: int) -> Seq<Option<TranspositionEntry>> {
    Seq::new(size as nat, |i: int| None::<TranspositionEntry>)
}

/// The first `n` old slots' entries moved into `size` new slots, each to
/// its hash's slot there, later ones overwriting earlier ones.
pub open spec fn rehashed(old: Seq<Option<TranspositionEntry>>, size: int, n: int) -> Seq<Option<TranspositionEntry>>
    decreases n,
{
    if n <= 0 {
        empty_slots(size)
    } else {
        let prev = rehashed(old, size, n - 1);
        match old[n - 1] {
            Some(e) => prev.update(slot(e.hash, size), Some(e)),
            None => prev,
        }
    }
}

/// A table of searched positions: a power-of-two number of slots, each
/// holding at most one entry, found by the low bits of its hash.
pub struct TranspositionTable {
    entries: Vec<Option<TranspositionEntry>>,
    config: TranspositionConfig,
    stats: TranspositionStats,
    current_age: u8,
}

impl TranspositionTable {
    /// The slots.
    pub closed spec fn slots(&self) -> Seq<Option<TranspositionEntry>> {
        self.entries@
    }

    /// The settings.
    pub closed spec fn spec_config(&self) -> TranspositionConfig {
        self.config
    }

    /// The counts.
    pub closed spec fn spec_stats(&self) -> TranspositionStats {
        self.stats
    }

    /// The age.
    pub closed spec fn spec_age(&self) -> u8 {
        self.current_age
    }

    /// The number of slots is a power of two.
    pub closed spec fn wf(&self) -> bool {
        self.entries@.len() >= 1 && is_pow2(self.entries@.len())
    }

    /// A table with `config`'s number of slots rounded up to a power of
    /// two, all empty, counts zero, age zero.
    pub fn new(config: TranspositionConfig) -> (r: Self)
        requires
            config.max_entries <= size_limit(),
        ensures
            r.wf(),
            least_pow2_at_least(r.slots().len() as int, config.max_entries as int),
            r.slots() == empty_slots(r.slots().len() as int),
            r.spec_config() == config,
            r.spec_stats() == spec_zero_stats(),
            r.spec_age() == 0,
    {
        let size = next_power_of_two(config.max_entries);
        let entries = Self::empty_entries(size);
        TranspositionTable { entries, config, stats: TranspositionStats::default(), current_age: 0 }
    }

    fn empty_entries(size: usize) -> (r: Vec<Option<TranspositionEntry>>)
        ensures
            r@ == empty_slots(size as int),
    {
        let mut v: Vec<Option<TranspositionEntry>> = Vec::new();
        let mut i: usize = 0;
        while i < size
            invariant
                i <= size,
                v@ == empty_slots(i as int),
            decreases size - i,
        {
            v.push(None);
            i = i + 1;
        }
        v
    }

    /// A table with the default settings.
    pub fn default() -> (r: Self)
        ensures
            r.wf(),
            least_pow2_at_least(r.slots().len() as int, 1_000_000),
            r.slots() == empty_slots(r.slots().len() as int),
            r.spec_config() == spec_default_config(),
            r.spec_stats() == spec_zero_stats(),
            r.spec_age() == 0,
    {
        let config: TranspositionConfig = Default::default();
        Self::new(config)
    }

    /// The slot of a hash.
    fn index(&self, hash: u64) -> (r: usize)
        requires
            self.wf(),
        ensures
            r as int == slot(hash, self.slots().len() as int),
            r < self.slots().len(),
    {
        proof {
            lemma_slot_bound(hash, self.entries.len());
        }
        (hash as usize) & (self.entries.len() - 1)
    }

    /// Looks a position up, counting the lookup and whether it hit.
    pub fn lookup(&mut self, hash: u64, depth: u8, alpha: i32, beta: i32) -> (r: Option<TranspositionEntry>)
        requires
            old(self).wf(),
        ensures
            final(self).wf(),
            r == probe(old(self).slots(), hash, depth, alpha, beta),
            r matches Some(e) ==> e.hash == hash && e.depth >= depth,
            final(self).slots() == old(self).slots(),
            final(self).spec_config() == old(self).spec_config(),
            final(self).spec_age() == old(self).spec_age(),
            final(self).spec_stats() == (if r is Some {
                TranspositionStats { lookups: sat_inc(old(self).spec_stats().lookups), hits: sat_inc(old(self).spec_stats().hits), ..old(self).spec_stats() }
            } else {
                TranspositionStats { lookups: sat_inc(old(self).spec_stats().lookups), misses: sat_inc(old(self).spec_stats().misses), ..old(self).spec_stats() }
            }),
    {
        self.stats.record_lookup();
        let index = self.index(hash);
        if let Some(entry) = self.entries[index] {
            if entry.hash == hash && entry.depth >= depth {
                if entry.entry_type.matches_bounds(entry.score, alpha, beta) {
                    self.stats.record_hit();
                    return Some(entry);
                }
            }
        }
        self.stats.record_miss();
        None
    }

    /// Stores an entry in its hash's slot: into an empty slot; over an entry
    /// of the same position, or (with replacement on) of another, that it
    /// should replace; else not at all.
    pub fn store(&mut self, entry: TranspositionEntry)
        requires
            old(self).wf(),
        ensures
            final(self).wf(),
            final(self).slots() == stored(old(self).slots(), entry, old(self).spec_age(), old(self).spec_config().enable_replacement),
            final(self).spec_stats() == store_stats(
                old(self).spec_stats(),
                old(self).slots(),
                entry,
                old(self).spec_age(),
                old(self).spec_config().enable_replacement,
            ),
            final(self).spec_config() == old(self).spec_config(),
            final(self).spec_age() == old(self).spec_age(),
    {
        let index = self.index(entry.hash);
        match self.entries[index] {
            Some(existing) => {
                if existing.hash == entry.hash {
                    if entry.should_replace(&existing, self.current_age) {
                        self.entries.set(index, Some(entry));
                        self.stats.record_replacement();
                    }
                } else {
                    if self.config.enable_replacement {
                        if entry.should_replace(&existing, self.current_age) {
                            self.entries.set(index, Some(entry));
                            self.stats.record_collision();
                            self.stats.record_replacement();
                        }
                    }
                }
            },
            None => {
                self.entries.set(index, Some(entry));
                self.stats.record_store();
            },
        }
    }

    /// Empties every slot and sets the counts and the age to zero.
    pub fn clear(&mut self)
        requires
            old(self).wf(),
        ensures
            final(self).wf(),
            final(self).slots() == empty_slots(old(self).slots().len() as int),
            final(self).spec_stats() == spec_zero_stats(),
            final(self).spec_age() == 0,
            final(self).spec_config() == old(self).spec_config(),
    {
        self.entries = Self::empty_entries(self.entries.len());
        self.stats = TranspositionStats::default();
        self.current_age = 0;
    }

    /// With aging on, advances the age by one (wrapping) and records it in
    /// the counts; else nothing changes.
    pub fn increment_age(&mut self)
        ensures
            final(self).slots() == old(self).slots(),
            final(self).spec_config() == old(self).spec_config(),
            old(self).spec_config().enable_aging ==> final(self).spec_age() == vstd::wrapping::u8_specs::wrapping_add(old(self).spec_age(), 1)
                && final(self).spec_stats() == (TranspositionStats { current_age: final(self).spec_age(), ..old(self).spec_stats() }),
            !old(self).spec_config().enable_aging ==> final(self).spec_age() == old(self).spec_age()
                && final(self).spec_stats() == old(self).spec_stats(),
            old(self).wf() ==> final(self).wf(),
    {
        if self.config.enable_aging {
            self.current_age = self.current_age.wrapping_add(1);
            self.stats.current_age = self.current_age;
        }
    }

    /// The age.
    pub fn current_age(&self) -> (r: u8)
        ensures
            r == self.spec_age(),
    {
        self.current_age
    }

    /// A copy of the counts.
    pub fn stats(&self) -> (r: TranspositionStats)
        ensures
            r == self.spec_stats(),
    {
        self.stats
    }

    /// The number of full slots.
    pub fn entry_count(&self) -> (r: usize)
        ensures
            r == count_full(self.slots(), self.slots().len() as int),
    {
        let mut count: usize = 0;
        let mut i: usize = 0;
        while i < self.entries.len()
            invariant
                i <= self.entries@.len(),
                count == count_full(self.entries@, i as int),
                count <= i,
            decreases self.entries@.len() - i,
        {
            if self.entries[i].is_some() {
                count = count + 1;
            }
            i = i + 1;
        }
        count
    }

    /// The number of slots.
    pub fn capacity(&self) -> (r: usize)
        ensures
            r == self.slots().len(),
    {
        self.entries.len()
    }

    /// Moves every entry into a table of `new_size` slots rounded up to a
    /// power of two, each to its hash's slot there (later slots' entries
    /// winning), and records `new_size` as the asked-for size.
    pub fn resize(&mut self, new_size: usize)
        requires
            old(self).wf(),
            new_size <= size_limit(),
        ensures
            final(self).wf(),
            least_pow2_at_least(final(self).slots().len() as int, new_size as int),
            final(self).slots() == rehashed(old(self).slots(), final(self).slots().len() as int, old(self).slots().len() as int),
            final(self).spec_config() == (TranspositionConfig { max_entries: new_size, ..old(self).spec_config() }),
            final(self).spec_stats() == old(self).spec_stats(),
            final(self).spec_age() == old(self).spec_age(),
    {
        let size = next_power_of_two(new_size);
        let mut new_entries = Self::empty_entries(size);
        let mut i: usize = 0;
        while i < self.entries.len()
            invariant
                i <= self.entries@.len(),
                size >= 1,
                new_entries@ == rehashed(self.entries@, size as int, i as int),
                new_entries@.len() == size,
            decreases self.entries@.len() - i,
        {
            if let Some(e) = self.entries[i] {
                proof {
                    lemma_slot_bound(e.hash, size);
                }
                let index = (e.hash as usize) & (size - 1);
                new_entries.set(index, Some(e));
            }
            i = i + 1;
        }
        self.entries = new_entries;
        self.config.max_entries = new_size;
    }
}

} // verus!

verus! {

/// A lookup right after a store that took finds the stored entry, at any
/// depth up to the entry's own and with any window its score settles.
pub proof fn lemma_lookup_after_store(
    slots: Seq<Option<TranspositionEntry>>,
    entry: TranspositionEntry,
    age: u8,
    replace_other: bool,
    depth: u8,
    alpha: i32,
    beta: i32,
)
    requires
        1 <= slots.len() <= usize::MAX,
        store_takes(slots, entry, age, replace_other),
        entry.depth >= depth,
        spec_matches_bounds(entry.entry_type, entry.score, alpha, beta),
    ensures
        probe(stored(slots, entry, age, replace_other), entry.hash, depth, alpha, beta) == Some(entry),
{
    lemma_slot_bound(entry.hash, slots.len() as usize);
}

/// A table of empty slots holds no entry.
pub proof fn lemma_count_empty(size: int, n: int)
    requires
        0 <= n <= size,
    ensures
        count_full(empty_slots(size), n) == 0,
    decreases n,
{
    if n > 0 {
        lemma_count_empty(size, n - 1);
    }
}

/// The number of rows the position keys cover.
pub const TT_KEY_ROWS: usize = 6;

/// The number of columns the position keys cover.
pub const TT_KEY_COLS: usize = 7;

/// The current time since the Unix epoch in nanoseconds
/// (`SystemTime::now`, `duration_since(UNIX_EPOCH)`, `as_nanos`), or 0 on a
/// clock set before 1970. It depends on the clock, so nothing is stated of
/// it.
#[verifier::external_body]
fn clock_nanos_wide() -> u128 {
    match std::time::SystemTime::now().duration_since(std::time::UNIX_EPOCH) {
        Ok(d) => d.as_nanos(),
        Err(_) => 0,
    }
}

/// The hash of one `u128` with std's `DefaultHasher` (`Hash::hash`, then
/// `finish`). Its value depends on the hasher's algorithm and on the byte
/// order of the machine, so nothing is stated of it.
#[verifier::external_body]
fn hash_of_u128(x: u128) -> u64 {
    let mut hasher = std::collections::hash_map::DefaultHasher::new();
    std::hash::Hash::hash(&x, &mut hasher);
    std::hash::Hasher::finish(&hasher)
}

/// The multiplier of a piece's key in the full hash: its cell number plus
/// one, the cells numbered in their order of declaration from 0 (player
/// 1's pieces 2, player 2's 3, blockers 4, and so on up to wild pieces 8).
pub open spec fn piece_factor(c: Cell) -> u64 {
    match c {
        Cell::Empty => 1,
        Cell::Player1 => 2,
        Cell::Player2 => 3,
        Cell::Blocker => 4,
        Cell::Explosive => 5,
        Cell::Wall => 6,
        Cell::Bomb => 7,
        Cell::Wild => 8,
    }
}

/// The index of a player's key: 0 for player 1, 1 for player 2.
pub open spec fn tt_player_index(p: Player) -> int {
    if p == Player::Player1 { 0 } else { 1 }
}

/// Keys for hashing positions of up to 6 rows and 7 columns: one per cell
/// and one per player to move.
pub struct ZobristKeys {
    board_keys: Vec<Vec<u64>>,
    player_keys: [u64; 2],
}

/// One cell combined into `hash`: nothing for an empty cell, else its key
/// times the piece's multiplier (wrapping), xor-ed in.
pub open spec fn tt_step(keys: &ZobristKeys, hash: u64, r: int, c: int, cell: Cell) -> u64 {
    if cell == Cell::Empty {
        hash
    } else {
        hash ^ vstd::wrapping::u64_specs::wrapping_mul(keys.board_key(r, c), piece_factor(cell))
    }
}

/// The first `c` cells of row `r` combined into `hash`.
pub open spec fn tt_fold_row(keys: &ZobristKeys, b: &Board, r: int, c: int, hash: u64) -> u64
    decreases c,
{
    if c <= 0 {
        hash
    } else {
        tt_step(keys, tt_fold_row(keys, b, r, c - 1, hash), r, c - 1, b.at(r, c - 1))
    }
}

/// The first `r` rows combined into `hash`.
pub open spec fn tt_fold_rows(keys: &ZobristKeys, b: &Board, r: int, hash: u64) -> u64
    decreases r,
{
    if r <= 0 {
        hash
    } else {
        tt_fold_row(keys, b, r - 1, b.spec_cols() as int, tt_fold_rows(keys, b, r - 1, hash))
    }
}

/// The hash of a position: the key of the player to move with every
/// piece's term xor-ed in.
pub open spec fn tt_hash(keys: &ZobristKeys, b: &Board, player: Player) -> u64 {
    tt_fold_rows(keys, b, b.spec_rows() as int, keys.player_key(tt_player_index(player)))
}

/// The term `update_hash` xors in: the cell's key times the player's index
/// plus one (wrapping).
pub open spec fn tt_update(keys: &ZobristKeys, hash: u64, r: int, c: int, player: Player) -> u64 {
    hash ^ vstd::wrapping::u64_specs::wrapping_mul(keys.board_key(r, c), (tt_player_index(player) + 1) as u64)
}

/// Updating twice with the same move gives back the hash.
pub proof fn lemma_update_twice(keys: &ZobristKeys, hash: u64, r: int, c: int, player: Player)
    ensures
        tt_update(keys, tt_update(keys, hash, r, c, player), r, c, player) == hash,
{
    let k = vstd::wrapping::u64_specs::wrapping_mul(keys.board_key(r, c), (tt_player_index(player) + 1) as u64);
    assert((hash ^ k) ^ k == hash) by (bit_vector);
}

impl ZobristKeys {
    /// The key of the cell at row `r`, column `c`.
    pub closed spec fn board_key(&self, r: int, c: int) -> u64 {
        self.board_keys@[r]@[c]
    }

    /// The key of player index `i`.
    pub closed spec fn player_key(&self, i: int) -> u64 {
        self.player_keys[i]
    }

    /// The keys cover 6 rows of 7 columns.
    pub closed spec fn wf(&self) -> bool {
        &&& self.board_keys@.len() == TT_KEY_ROWS
        &&& forall|r: int| 0 <= r < TT_KEY_ROWS ==> #[trigger] self.board_keys@[r]@.len() == TT_KEY_COLS
    }

    /// Keys drawn from the clock.
    pub fn new() -> (r: Self)
        ensures
            r.wf(),
    {
        let mut board_keys: Vec<Vec<u64>> = Vec::new();
        let mut i: usize = 0;
        while i < TT_KEY_ROWS
            invariant
                i <= TT_KEY_ROWS,
                board_keys@.len() == i,
                forall|k: int| 0 <= k < i ==> #[trigger] board_keys@[k]@.len() == TT_KEY_COLS,
            decreases TT_KEY_ROWS - i,
        {
            let mut row_keys: Vec<u64> = Vec::new();
            let mut j: usize = 0;
            while j < TT_KEY_COLS
                invariant
                    j <= TT_KEY_COLS,
                    row_keys@.len() == j,
                decreases TT_KEY_COLS - j,
            {
                row_keys.push(Self::random_u64());
                j = j + 1;
            }
            board_keys.push(row_keys);
            i = i + 1;
        }
        ZobristKeys { board_keys, player_keys: [Self::random_u64(), Self::random_u64()] }
    }

    /// A number drawn from the clock: the hash of the current time.
    fn random_u64() -> u64 {
        hash_of_u128(clock_nanos_wide())
    }

    /// The hash of a position of up to 6 rows and 7 columns with `player`
    /// to move.
    pub fn hash(&self, board: &Board, player: Player) -> (r: u64)
        requires
            self.wf(),
            board.wf(),
            board.spec_rows() <= TT_KEY_ROWS,
            board.spec_cols() <= TT_KEY_COLS,
        ensures
            r == tt_hash(self, board, player),
    {
        let mut hash = self.player_keys[if player == Player::Player1 { 0 } else { 1 }];
        let mut row: usize = 0;
        while row < board.rows()
            invariant
                self.wf(),
                board.wf(),
                board.spec_rows() <= TT_KEY_ROWS,
                board.spec_cols() <= TT_KEY_COLS,
                row <= board.spec_rows(),
                hash == tt_fold_rows(self, board, row as int, self.player_key(tt_player_index(player))),
            decreases board.spec_rows() - row,
        {
            let ghost start = hash;
            let mut col: usize = 0;
            while col < board.cols()
                invariant
                    self.wf(),
                    board.wf(),
                    board.spec_rows() <= TT_KEY_ROWS,
                    board.spec_cols() <= TT_KEY_COLS,
                    row < board.spec_rows(),
                    col <= board.spec_cols(),
                    hash == tt_fold_row(self, board, row as int, col as int, start),
                decreases board.spec_cols() - col,
            {
                match board.get_at(row, col) {
                    Some(cell) => {
                        if !cell.is_empty() {
                            let cell_value: u64 = match cell {
                                Cell::Empty => 0,
                                Cell::Player1 => 1,
                                Cell::Player2 => 2,
                                Cell::Blocker => 3,
                                Cell::Explosive => 4,
                                Cell::Wall => 5,
                                Cell::Bomb => 6,
                                Cell::Wild => 7,
                            };
                            assert(self.board_keys@[row as int]@.len() == TT_KEY_COLS);
                            hash = hash ^ self.board_keys[row][col].wrapping_mul(cell_value + 1);
                        }
                    },
                    None => {},
                }
                col = col + 1;
            }
            row = row + 1;
        }
        hash
    }

    /// The hash after `player` puts a piece at row `row`, column `col`: the
    /// cell's key times the player's index plus one (wrapping), xor-ed in.
    pub fn update_hash(&self, hash: u64, row: usize, col: usize, player: Player) -> (r: u64)
        requires
            self.wf(),
            row < TT_KEY_ROWS,
            col < TT_KEY_COLS,
        ensures
            r == tt_update(self, hash, row as int, col as int, player),
    {
        let player_idx: u64 = if player == Player::Player1 { 0 } else { 1 };
        assert(self.board_keys@[row as int]@.len() == TT_KEY_COLS);
        hash ^ self.board_keys[row][col].wrapping_mul(player_idx + 1)
    }
}

} // verus!

verus! {

/// The entry the storage benchmark stores for index `i`: hash `i`, best
/// move `i % 7`, score `i % 100 - 50`, depth `i % 10`, exact, age 0.
pub open spec fn bench_entry(i: usize) -> TranspositionEntry {
    TranspositionEntry {
        hash: i as u64,
        best_move: Some((i % 7) as usize),
        score: ((i % 100) as int - 50) as i32,
        depth: (i % 10) as u8,
        entry_type: EntryType::Exact,
        age: 0,
    }
}

fn make_bench_entry(i: usize) -> (r: TranspositionEntry)
    ensures
        r == bench_entry(i),
{
    TranspositionEntry::new(i as u64, Some(i % 7), (i % 100) as i32 - 50, (i % 10) as u8, EntryType::Exact, 0)
}

/// The slots after storing the benchmark entries of the first `n` indices.
pub open spec fn stored_upto(slots: Seq<Option<TranspositionEntry>>, age: u8, replace_other: bool, n: int) -> Seq<Option<TranspositionEntry>>
    decreases n,
{
    if n <= 0 { slots } else { stored(stored_upto(slots, age, replace_other, n - 1), bench_entry((n - 1) as usize), age, replace_other) }
}

/// The number of hashes below `n` that a full-window lookup finds.
pub open spec fn hits_upto(slots: Seq<Option<TranspositionEntry>>, n: int) -> nat
    decreases n,
{
    if n <= 0 {
        0
    } else {
        hits_upto(slots, n - 1) + if probe(slots, (n - 1) as u64, 0, i32::MIN, i32::MAX) is Some { 1nat } else { 0nat }
    }
}

/// The slots and hits after the first `n` steps of the mixed benchmark:
/// even steps look up hash `i / 2`, odd steps store the entry of `i / 2`.
pub open spec fn mixed_upto(slots: Seq<Option<TranspositionEntry>>, age: u8, replace_other: bool, n: int) -> (Seq<Option<TranspositionEntry>>, nat)
    decreases n,
{
    if n <= 0 {
        (slots, 0)
    } else {
        let (s, h) = mixed_upto(slots, age, replace_other, n - 1);
        let i = n - 1;
        if i % 2 == 0 {
            (s, h + if probe(s, (i / 2) as u64, 0, i32::MIN, i32::MAX) is Some { 1nat } else { 0nat })
        } else {
            (stored(s, bench_entry((i / 2) as usize), age, replace_other), h)
        }
    }
}

/// A table to measure: the passes here do the work, and the caller times
/// them.
pub struct TranspositionBenchmark {
    table: TranspositionTable,
}

impl TranspositionBenchmark {
    /// The table measured.
    pub closed spec fn spec_table(&self) -> TranspositionTable {
        self.table
    }

    /// A benchmark on a new table with the given settings.
    pub fn new(config: TranspositionConfig) -> (r: Self)
        requires
            config.max_entries <= size_limit(),
        ensures
            r.spec_table().wf(),
            r.spec_table().slots() == empty_slots(r.spec_table().slots().len() as int),
            r.spec_table().spec_config() == config,
    {
        TranspositionBenchmark { table: TranspositionTable::new(config) }
    }

    /// Looks up the hashes `0..iterations` with the full window and returns
    /// how many were found.
    pub fn lookup_pass(&mut self, iterations: usize) -> (r: usize)
        requires
            old(self).spec_table().wf(),
        ensures
            final(self).spec_table().wf(),
            final(self).spec_table().slots() == old(self).spec_table().slots(),
            final(self).spec_table().spec_config() == old(self).spec_table().spec_config(),
            final(self).spec_table().spec_age() == old(self).spec_table().spec_age(),
            r == hits_upto(old(self).spec_table().slots(), iterations as int),
            final(self).spec_table().spec_stats() == (TranspositionStats {
                lookups: sat_add(old(self).spec_table().spec_stats().lookups, iterations as int),
                hits: sat_add(old(self).spec_table().spec_stats().hits, r as int),
                misses: sat_add(old(self).spec_table().spec_stats().misses, iterations - r),
                ..old(self).spec_table().spec_stats()
            }),
    {
        let ghost slots = self.table.slots();
        let ghost stats0 = self.table.spec_stats();
        let ghost config = self.table.spec_config();
        let ghost age = self.table.spec_age();
        let mut hits: usize = 0;
        let mut i: usize = 0;
        while i < iterations
            invariant
                self.table.wf(),
                self.table.slots() == slots,
                self.table.spec_config() == config,
                self.table.spec_age() == age,
                i <= iterations,
                hits == hits_upto(slots, i as int),
                hits <= i,
                self.table.spec_stats() == (TranspositionStats {
                    lookups: sat_add(stats0.lookups, i as int),
                    hits: sat_add(stats0.hits, hits as int),
                    misses: sat_add(stats0.misses, i - hits),
                    ..stats0
                }),
            decreases iterations - i,
        {
            if self.table.lookup(i as u64, 0, i32::MIN, i32::MAX).is_some() {
                hits = hits + 1;
            }
            i = i + 1;
        }
        hits
    }

    /// Stores the benchmark entries of the indices `0..entries`.
    pub fn storage_pass(&mut self, entries: usize)
        requires
            old(self).spec_table().wf(),
        ensures
            final(self).spec_table().wf(),
            final(self).spec_table().spec_config() == old(self).spec_table().spec_config(),
            final(self).spec_table().spec_age() == old(self).spec_table().spec_age(),
            final(self).spec_table().slots() == stored_upto(
                old(self).spec_table().slots(),
                old(self).spec_table().spec_age(),
                old(self).spec_table().spec_config().enable_replacement,
                entries as int,
            ),
    {
        let ghost slots = self.table.slots();
        let ghost age = self.table.spec_age();
        let ghost repl = self.table.spec_config().enable_replacement;
        let ghost config = self.table.spec_config();
        let mut i: usize = 0;
        while i < entries
            invariant
                self.table.wf(),
                self.table.spec_age() == age,
                self.table.spec_config() == config,
                config.enable_replacement == repl,
                i <= entries,
                self.table.slots() == stored_upto(slots, age, repl, i as int),
            decreases entries - i,
        {
            let entry = make_bench_entry(i);
            self.table.store(entry);
            i = i + 1;
        }
    }

    /// Alternates lookups (even steps, hash `i / 2`) and stores (odd steps,
    /// the entry of `i / 2`) for `iterations` steps and returns how many
    /// lookups found an entry.
    pub fn mixed_pass(&mut self, iterations: usize) -> (r: usize)
        requires
            old(self).spec_table().wf(),
        ensures
            final(self).spec_table().wf(),
            final(self).spec_table().spec_config() == old(self).spec_table().spec_config(),
            final(self).spec_table().spec_age() == old(self).spec_table().spec_age(),
            final(self).spec_table().slots() == mixed_upto(
                old(self).spec_table().slots(),
                old(self).spec_table().spec_age(),
                old(self).spec_table().spec_config().enable_replacement,
                iterations as int,
            ).0,
            r == mixed_upto(
                old(self).spec_table().slots(),
                old(self).spec_table().spec_age(),
                old(self).spec_table().spec_config().enable_replacement,
                iterations as int,
            ).1,
    {
        let ghost slots = self.table.slots();
        let ghost age = self.table.spec_age();
        let ghost repl = self.table.spec_config().enable_replacement;
        let ghost config = self.table.spec_config();
        let mut hits: usize = 0;
        let mut i: usize = 0;
        while i < iterations
            invariant
                self.table.wf(),
                self.table.spec_age() == age,
                self.table.spec_config() == config,
                config.enable_replacement == repl,
                i <= iterations,
                (self.table.slots(), hits as nat) == mixed_upto(slots, age, repl, i as int),
                hits <= i,
            decreases iterations - i,
        {
            if i % 2 == 0 {
                if self.table.lookup((i / 2) as u64, 0, i32::MIN, i32::MAX).is_some() {
                    hits = hits + 1;
                }
            } else {
                let entry = make_bench_entry(i / 2);
                self.table.store(entry);
            }
            i = i + 1;
        }
        hits
    }

    /// The table measured.
    pub fn table(&self) -> (r: &TranspositionTable)
        ensures
            *r == self.spec_table(),
    {
        &self.table
    }
}

} // verus!
