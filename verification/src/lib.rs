//! A single-deck Blackjack rules engine: cards and scoring, hand lifecycle
//! (deal, hit, split), dealer auto-play, a round state machine, and bet
//! settlement. The engine performs no I/O; a presentation layer drives it
//! through a small command interface and reads scores and balances back.

pub mod app;
pub mod cards;
pub mod errors;
pub mod game;
pub mod input;
pub mod scoring;
