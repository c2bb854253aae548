//! A single-player Blackjack engine: deck building and shuffling, hand
//! scoring with the one-ace upgrade rule, and the three-state turn machine
//! that drives a round from the deal to the handover.
pub mod card;
pub mod deck;
pub mod game;
pub mod hand;
