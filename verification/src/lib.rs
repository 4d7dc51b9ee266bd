//! A turn-based gravity-drop grid game engine for two or more players.
//!
//! Tokens fall to the lowest vacant cell of a chosen column. The game ends
//! when a run of consecutive tokens of one owner reaches the configured
//! length along a row, a column or a diagonal, or when the board is full.
//!
//! [`GameEngine`] is the executable engine. Its contracts are stated over
//! [`GameModel`], the game as a mathematical state machine, and the
//! modules `gravity`, `lines` and `laws` prove what holds of every game.

pub mod grid;
pub mod gravity;
pub mod lines;
pub mod board;
pub mod model;
pub mod laws;
pub mod engine;
pub mod render;

pub use board::Board;
pub use engine::{ConfigError, GameEngine, GameState};
pub use grid::{Axis, Cell};
pub use model::{EngineConfig, GameModel, MoveResult, Outcome};
