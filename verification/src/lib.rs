//! Single-player Blackjack: the card model, the shuffled deck, the hand
//! evaluator and the state machine of one round, with their contracts.

pub mod cards;
pub mod deck;
pub mod game;
pub mod hand;
