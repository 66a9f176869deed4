//! A deterministic turn engine for a coin-and-establishment board game.
//!
//! Players buy establishments and landmarks from face-up markets; dice rolls
//! activate establishments, which move coins between the bank and the players,
//! until one player meets the win condition.
//!
//! The state of a match is a [`game::Game`]; its mathematical model, over which
//! every contract is stated, is a [`game::GameView`]. The rules that change a
//! game are in [`rules`], the phases of a turn in [`turn`], and the
//! [`engine::Engine`] plays whole matches, asking one
//! [`player_strategies::PlayerStrategy`] for each seat what to do.

pub mod engine;
pub mod game;
pub mod market;
pub mod models;
pub mod player_strategies;
pub mod rng;
pub mod rules;
pub mod simulation;
pub mod turn;
pub mod turn_laws;
