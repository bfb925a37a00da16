//! The settings of an AI player at each difficulty, its thinking modes and
//! the outcomes it learns from.

use vstd::prelude::*;
use crate::player::Player;
use crate::strategy::{AIStrategy, DifficultyLevel};

verus! {

/// The settings of an AI player.
pub struct AIPlayerConfig {
    /// The player's name.
    pub name: String,
    /// How it chooses moves.
    pub strategy: AIStrategy,
    /// How hard it plays.
    pub difficulty: DifficultyLevel,
    /// How deep it searches.
    pub depth: usize,
    /// The time per move in milliseconds, if limited.
    pub time_limit: Option<u64>,
    /// Whether it consults an opening book.
    pub use_opening_book: bool,
    /// Whether it caches searched positions.
    pub use_transposition: bool,
    /// Whether it thinks during the opponent's turn.
    pub enable_pondering: bool,
    /// Whether it shows its thinking.
    pub show_thinking: bool,
}

/// The settings every difficulty shares: named "AI Player", five seconds
/// per move, opening book and position cache on, no pondering, thinking
/// not shown.
pub open spec fn common_settings(c: AIPlayerConfig) -> bool {
    &&& c.name@ == "AI Player"@
    &&& c.time_limit == Some(5000u64)
    &&& c.use_opening_book
    &&& c.use_transposition
    &&& !c.enable_pondering
    &&& !c.show_thinking
}

impl Default for AIPlayerConfig {
    fn default() -> (r: Self)
        ensures
            common_settings(r),
            r.difficulty == DifficultyLevel::Medium,
            r.depth == 6,
            r.strategy == (AIStrategy::Minimax { depth: 6 }),
    {
        Self::with_level(DifficultyLevel::Medium, 6, AIStrategy::Minimax { depth: 6 })
    }
}

impl AIPlayerConfig {
    fn with_level(difficulty: DifficultyLevel, depth: usize, strategy: AIStrategy) -> (r: Self)
        ensures
            common_settings(r),
            r.difficulty == difficulty,
            r.depth == depth,
            r.strategy == strategy,
    {
        let name = crate::text::owned("AI Player");
        proof {
            reveal_strlit("AI Player");
        }
        AIPlayerConfig {
            name,
            strategy,
            difficulty,
            depth,
            time_limit: Some(5000),
            use_opening_book: true,
            use_transposition: true,
            enable_pondering: false,
            show_thinking: false,
        }
    }

    /// Easy: random moves, depth 3.
    pub fn easy() -> (r: Self)
        ensures
            common_settings(r),
            r.difficulty == DifficultyLevel::Easy,
            r.depth == 3,
            r.strategy == AIStrategy::Random,
    {
        Self::with_level(DifficultyLevel::Easy, 3, AIStrategy::Random)
    }

    /// Medium: alpha-beta search to depth 6.
    pub fn medium() -> (r: Self)
        ensures
            common_settings(r),
            r.difficulty == DifficultyLevel::Medium,
            r.depth == 6,
            r.strategy == (AIStrategy::AlphaBeta { depth: 6 }),
    {
        Self::with_level(DifficultyLevel::Medium, 6, AIStrategy::AlphaBeta { depth: 6 })
    }

    /// Hard: minimax search to depth 10.
    pub fn hard() -> (r: Self)
        ensures
            common_settings(r),
            r.difficulty == DifficultyLevel::Hard,
            r.depth == 10,
            r.strategy == (AIStrategy::Minimax { depth: 10 }),
    {
        Self::with_level(DifficultyLevel::Hard, 10, AIStrategy::Minimax { depth: 10 })
    }

    /// Expert: tree search (ten thousand iterations), depth 14.
    pub fn expert() -> (r: Self)
        ensures
            common_settings(r),
            r.difficulty == DifficultyLevel::Expert,
            r.depth == 14,
            r.strategy == (AIStrategy::MCTS { iterations: 10000 }),
    {
        Self::with_level(DifficultyLevel::Expert, 14, AIStrategy::MCTS { iterations: 10000 })
    }

    /// Master: a hybrid of minimax to depth 18 and tree search (five
    /// thousand iterations), depth 18.
    pub fn master() -> (r: Self)
        ensures
            common_settings(r),
            r.difficulty == DifficultyLevel::Master,
            r.depth == 18,
            r.strategy matches AIStrategy::Hybrid { strategies } && strategies@ == seq![
                AIStrategy::Minimax { depth: 18 },
                AIStrategy::MCTS { iterations: 5000 },
            ],
    {
        let strategies = vec![AIStrategy::Minimax { depth: 18 }, AIStrategy::MCTS { iterations: 5000 }];
        Self::with_level(DifficultyLevel::Master, 18, AIStrategy::Hybrid { strategies })
    }
}

/// How an AI player is thinking.
#[derive(Clone, Copy, PartialEq, Eq, Debug, Structural)]
pub enum ThinkingMode {
    /// Choosing its own move.
    Normal,
    /// Thinking during the opponent's turn.
    Pondering,
    /// Analysing without choosing.
    Analysis,
}

/// How a game ended, for learning.
#[derive(Clone, Copy, PartialEq, Eq, Debug, Structural)]
pub enum GameOutcome {
    /// The player won.
    Win(Player),
    /// A draw.
    Draw,
}

} // verus!
