//! A rules-agnostic search engine for two-player, perfect-information,
//! turn-based games: capability traits that a game's rules implement, two
//! move-selection strategies over them, and a loop that plays a game out.

pub mod evaluation;
pub mod game;
pub mod strategy;
pub mod max_strategy;
pub mod minimax_strategy;
pub mod player;
pub mod engine;
pub mod tictactoe;
pub mod connect_four;
