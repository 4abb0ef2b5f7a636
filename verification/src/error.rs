//! The errors that the engine answers with.

use vstd::prelude::*;
use vstd::string::*;
use crate::card::{card_text, format_card_message, UNOCard};

verus! {

/// What can go wrong outside of an ordinary move.
#[derive(Debug, Copy, Clone, PartialEq, Eq, Structural)]
pub enum GameError {
    /// The operating system gave no random bytes to seed the generator from.
    EntropyUnavailable,
    /// A colour index above 4.
    UnknownColorNumber,
    /// A game was asked for with no player at all.
    NoPlayers,
    /// More seats than the turn counter can number.
    TooManyPlayers,
    /// The draw pile was empty where a card had to be taken from it.
    OutOfCards,
    /// The call does not fit the point that the turn has reached.
    WrongPhase,
    /// A card was asked for by the number zero; cards are numbered from one.
    NoSuchCard,
    /// A card was asked for by a number beyond the last card of the hand.
    NotInHand,
    /// The card may not be played on the top card.
    NotAllowed(UNOCard),
    /// The pending draw penalty is too large to add to.
    PenaltyOverflow,
    /// No colour was named for a wild card.
    NoColor,
}

/// The message that goes with an error.
pub open spec fn error_text(error: GameError) -> Seq<char> {
    match error {
        GameError::EntropyUnavailable => "Failed to seed from the system's random source"@,
        GameError::UnknownColorNumber =>
            "Could not find corresponding color from the given number"@,
        GameError::NoPlayers => "No players"@,
        GameError::TooManyPlayers => "Too many players"@,
        GameError::OutOfCards => "Error, out of cards"@,
        GameError::WrongPhase => "This cannot be done at this point of the turn"@,
        GameError::NoSuchCard => "Please enter a card that you can use"@,
        GameError::NotInHand => "Please enter a card that you have!"@,
        GameError::NotAllowed(card) => "Playing a "@ + card_text(card)
            + " is not allowed. Pick another card or draw."@,
        GameError::PenaltyOverflow => "The draw penalty cannot grow any further"@,
        GameError::NoColor => "Please enter an UNO color"@,
    }
}

impl GameError {
    /// The message that goes with the error.
    pub fn message(&self) -> (text: String)
        ensures
            text@ == error_text(*self),
    {
        match self {
            GameError::EntropyUnavailable => String::from_str(
                "Failed to seed from the system's random source",
            ),
            GameError::UnknownColorNumber => String::from_str(
                "Could not find corresponding color from the given number",
            ),
            GameError::NoPlayers => String::from_str("No players"),
            GameError::TooManyPlayers => String::from_str("Too many players"),
            GameError::OutOfCards => String::from_str("Error, out of cards"),
            GameError::WrongPhase => String::from_str(
                "This cannot be done at this point of the turn",
            ),
            GameError::NoSuchCard => String::from_str("Please enter a card that you can use"),
            GameError::NotInHand => String::from_str("Please enter a card that you have!"),
            GameError::NotAllowed(card) => {
                let mut text = String::from_str("Playing a ");
                text.append(format_card_message(card).as_str());
                text.append(" is not allowed. Pick another card or draw.");
                text
            },
            GameError::PenaltyOverflow => String::from_str(
                "The draw penalty cannot grow any further",
            ),
            GameError::NoColor => String::from_str("Please enter an UNO color"),
        }
    }
}

} // verus!
