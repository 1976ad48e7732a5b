//! Rules engine for a turn-based property-trading board game: the board,
//! its spaces and properties, the players, the card decks and the turn
//! state machine.

pub mod cards;
pub mod dice;
pub mod property;
pub mod space;
pub mod player;
pub mod layout;
pub mod board;
pub mod game;
pub mod input;
