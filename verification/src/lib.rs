//! A Connect Four game library: board model, pieces and players, rule
//! checking, game state and engine, and the search-based AI players, with
//! their behaviour stated as Verus contracts.

pub mod text;
pub mod cell;
pub mod chance;
pub mod player;
pub mod coordinates;
pub mod direction;
pub mod board;
pub mod piece;
pub mod move_result;
pub mod game_config;
pub mod variant;
pub mod clock;
pub mod game_id;
pub mod game_state;
pub mod validation;
pub mod engine;
pub mod classic;
pub mod zobrist;
pub mod game_tree;
pub mod endgame;
pub mod evaluation;
pub mod timing;
pub mod minimax;
pub mod alphabeta;
pub mod transposition;
pub mod strategy;
pub mod heuristic;
pub mod time_management;
pub mod ai_player;
pub mod parallel;
pub mod opening_book;
pub mod mcts;
