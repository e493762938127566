pub mod chess;
pub mod drawbacks;
pub mod evaluation;
pub mod zobrist;
pub mod state;
pub mod config;
pub mod context;
pub mod heuristic;
pub mod mcts;
pub mod pleco_ai;
pub mod search;
