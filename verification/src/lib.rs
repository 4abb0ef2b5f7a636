//! A turn-based card game engine for UNO-style rules.
//!
//! The engine holds the cards and the rules: the deck and its shuffle, the
//! rule that says which card may be played on which, the strategies of the
//! computer-controlled players, and the protocol by which turns are played.
//! Reading what players type and showing them the table is left to the
//! program around it.

pub mod card;
pub mod command;
pub mod dealing;
pub mod deck;
pub mod error;
pub mod game;
pub mod hand;
pub mod laws;
pub mod piles;
pub mod prng;
pub mod rules;
pub mod shuffle;
pub mod strategy;
pub mod table;
pub mod text;
pub mod turn;
pub mod xorshift;
