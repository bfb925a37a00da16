//! The AI strategies by name, and the choice of one by difficulty.

use vstd::prelude::*;

verus! {

/// A way for the AI to choose its moves.
pub enum AIStrategy {
    /// Random moves.
    Random,
    /// Minimax search to a depth.
    Minimax { depth: usize },
    /// Alpha-beta search to a depth.
    AlphaBeta { depth: usize },
    /// Monte Carlo tree search with a number of iterations.
    MCTS { iterations: u32 },
    /// A neural network model.
    Neural { model_id: String },
    /// Several strategies together.
    Hybrid { strategies: Vec<AIStrategy> },
}

/// The display name of each strategy.
pub open spec fn spec_strategy_name(s: &AIStrategy) -> &'static str {
    match s {
        AIStrategy::Random => "Random",
        AIStrategy::Minimax { .. } => "Minimax",
        AIStrategy::AlphaBeta { .. } => "Alpha-Beta Pruning",
        AIStrategy::MCTS { .. } => "Monte Carlo Tree Search",
        AIStrategy::Neural { .. } => "Neural Network",
        AIStrategy::Hybrid { .. } => "Hybrid",
    }
}

impl AIStrategy {
    /// The strategy's display name.
    pub fn name(&self) -> (r: &'static str)
        ensures
            r@ == spec_strategy_name(self)@,
    {
        match self {
            AIStrategy::Random => "Random",
            AIStrategy::Minimax { .. } => "Minimax",
            AIStrategy::AlphaBeta { .. } => "Alpha-Beta Pruning",
            AIStrategy::MCTS { .. } => "Monte Carlo Tree Search",
            AIStrategy::Neural { .. } => "Neural Network",
            AIStrategy::Hybrid { .. } => "Hybrid",
        }
    }
}

/// A named AI player with its strategy.
pub struct AIPlayer {
    name: String,
    strategy: AIStrategy,
}

impl AIPlayer {
    /// The player's name.
    pub closed spec fn spec_name(&self) -> Seq<char> {
        self.name@
    }

    /// The player's strategy.
    pub closed spec fn spec_strategy(&self) -> &AIStrategy {
        &self.strategy
    }

    /// A player with the given name and strategy.
    pub fn new(name: String, strategy: AIStrategy) -> (r: Self)
        ensures
            r.spec_name() == name@,
            r.spec_strategy() == &strategy,
    {
        AIPlayer { name, strategy }
    }

    /// The player's name.
    pub fn name(&self) -> (r: &str)
        ensures
            r@ == self.spec_name(),
    {
        self.name.as_str()
    }

    /// The player's strategy.
    pub fn strategy(&self) -> (r: &AIStrategy)
        ensures
            r == self.spec_strategy(),
    {
        &self.strategy
    }
}

/// How hard the AI plays.
#[derive(Clone, Copy, PartialEq, Eq, Debug, Structural)]
pub enum DifficultyLevel {
    /// Easy.
    Easy,
    /// Medium.
    Medium,
    /// Hard.
    Hard,
    /// Expert.
    Expert,
    /// Master.
    Master,
}

/// The display name of each difficulty.
pub open spec fn spec_difficulty_name(d: DifficultyLevel) -> &'static str {
    match d {
        DifficultyLevel::Easy => "Easy",
        DifficultyLevel::Medium => "Medium",
        DifficultyLevel::Hard => "Hard",
        DifficultyLevel::Expert => "Expert",
        DifficultyLevel::Master => "Master",
    }
}

impl DifficultyLevel {
    /// The difficulty's display name.
    pub fn as_str(&self) -> (r: &'static str)
        ensures
            r@ == spec_difficulty_name(*self)@,
    {
        match self {
            DifficultyLevel::Easy => "Easy",
            DifficultyLevel::Medium => "Medium",
            DifficultyLevel::Hard => "Hard",
            DifficultyLevel::Expert => "Expert",
            DifficultyLevel::Master => "Master",
        }
    }
}

/// The place in the list of strategies that each difficulty picks.
pub open spec fn difficulty_index(d: DifficultyLevel) -> int {
    match d {
        DifficultyLevel::Easy => 0,
        DifficultyLevel::Medium => 3,
        DifficultyLevel::Hard => 6,
        DifficultyLevel::Expert => 8,
        DifficultyLevel::Master => 9,
    }
}

/// A list of strategies to pick from by difficulty.
pub struct StrategySelector {
    available_strategies: Vec<AIStrategy>,
}

/// The strategies a new selector offers, in order: minimax to depths 3, 6
/// and 9, alpha-beta to depths 4, 7 and 10, and tree search with 1000,
/// 5000 and 10000 iterations.
pub open spec fn standard_strategies() -> Seq<AIStrategy> {
    seq![
        AIStrategy::Minimax { depth: 3 },
        AIStrategy::Minimax { depth: 6 },
        AIStrategy::Minimax { depth: 9 },
        AIStrategy::AlphaBeta { depth: 4 },
        AIStrategy::AlphaBeta { depth: 7 },
        AIStrategy::AlphaBeta { depth: 10 },
        AIStrategy::MCTS { iterations: 1000 },
        AIStrategy::MCTS { iterations: 5000 },
        AIStrategy::MCTS { iterations: 10000 },
    ]
}

impl StrategySelector {
    /// The strategies offered.
    pub closed spec fn strategies(&self) -> Seq<AIStrategy> {
        self.available_strategies@
    }

    /// A selector offering the standard strategies.
    pub fn new() -> (r: Self)
        ensures
            r.strategies() == standard_strategies(),
    {
        let strategies = vec![
            AIStrategy::Minimax { depth: 3 },
            AIStrategy::Minimax { depth: 6 },
            AIStrategy::Minimax { depth: 9 },
            AIStrategy::AlphaBeta { depth: 4 },
            AIStrategy::AlphaBeta { depth: 7 },
            AIStrategy::AlphaBeta { depth: 10 },
            AIStrategy::MCTS { iterations: 1000 },
            AIStrategy::MCTS { iterations: 5000 },
            AIStrategy::MCTS { iterations: 10000 },
        ];
        StrategySelector { available_strategies: strategies }
    }

    /// The strategy at the difficulty's place in the list, if the list is
    /// that long (with the standard list, none for Master).
    pub fn select_by_difficulty(&self, difficulty: DifficultyLevel) -> (r: Option<&AIStrategy>)
        ensures
            difficulty_index(difficulty) < self.strategies().len() ==> r == Some(&self.strategies()[difficulty_index(difficulty)]),
            difficulty_index(difficulty) >= self.strategies().len() ==> r is None,
    {
        let index: usize = match difficulty {
            DifficultyLevel::Easy => 0,
            DifficultyLevel::Medium => 3,
            DifficultyLevel::Hard => 6,
            DifficultyLevel::Expert => 8,
            DifficultyLevel::Master => 9,
        };
        if index < self.available_strategies.len() {
            Some(&self.available_strategies[index])
        } else {
            None
        }
    }
}

} // verus!
