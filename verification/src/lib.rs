//! A blackjack rules engine and simulation core.
//!
//! The library models cards, decks, a shared card source, a fixed player
//! strategy table, and the game state machine that plays one round of
//! blackjack to a terminal outcome. Aggregation of many game outcomes into
//! win/loss/tie counts is also provided. Randomness (the shuffle) comes from
//! the `rand` crate behind a trusted boundary; everything else is verified.

pub mod card;
pub mod deck;
pub mod game;
pub mod sim;
pub mod strategy;

pub use card::Card;
pub use deck::{CardSource, Deck};
pub use game::{Game, GameResult};
pub use sim::{Opt, Tally};
pub use strategy::{Agent, Move, StrategyError, StrategyTable};
