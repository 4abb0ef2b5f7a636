//! The legality rule: which card may be played on which.

use vstd::prelude::*;
use crate::card::{SpecialCard, UNOCard};

verus! {

/// Whether `card` may be played on `top`.
///
/// A wild card always may. Otherwise a card that is not a number card may be
/// played on a card of its own kind; and any card may be played on a card of
/// its own colour, a number card also on one that bears its number.
pub open spec fn is_playable(card: UNOCard, top: UNOCard) -> bool {
    if card.is_wild() {
        true
    } else if card.special == top.special && card.special != SpecialCard::Base {
        true
    } else {
        (card.special == SpecialCard::Base && card.number == top.number) || card.color
            == top.color
    }
}

/// Whether some card of `hand` is a counter card.
pub open spec fn has_counter(hand: Seq<UNOCard>) -> bool {
    exists|i: int| 0 <= i < hand.len() && (#[trigger] hand[i]).is_counter()
}

/// Whether `card_chosen` may be played on `last_card`.
pub fn allowed_move(card_chosen: UNOCard, last_card: UNOCard) -> (allowed: bool)
    ensures
        allowed == is_playable(card_chosen, last_card),
{
    if card_chosen.special == SpecialCard::ColorChange || card_chosen.special
        == SpecialCard::PlusFour {
        return true;
    }
    if card_chosen.special == last_card.special && card_chosen.special != SpecialCard::Base {
        return true;
    }
    if (card_chosen.special == SpecialCard::Base && card_chosen.number == last_card.number)
        || card_chosen.color == last_card.color {
        return true;
    }
    false
}

/// Whether the hand holds a Draw 2 or a Draw 4.
pub fn check_countercards(hand: &Vec<UNOCard>) -> (found: bool)
    ensures
        found == has_counter(hand@),
{
    let mut i: usize = 0;
    while i < hand.len()
        invariant
            i <= hand.len(),
            forall|k: int| 0 <= k < i ==> !(#[trigger] hand@[k]).is_counter(),
        decreases hand.len() - i,
    {
        if hand[i].counter() {
            return true;
        }
        i += 1;
    }
    false
}

/// A wild card may be played on any card.
pub proof fn lemma_wild_always_playable(card: UNOCard, top: UNOCard)
    requires
        card.is_wild(),
    ensures
        is_playable(card, top),
{
}

/// A number card may be played on a number card exactly when the two share
/// their colour or their number.
pub proof fn lemma_number_on_number(card: UNOCard, top: UNOCard)
    requires
        card.special == SpecialCard::Base,
        top.special == SpecialCard::Base,
    ensures
        is_playable(card, top) == (card.color == top.color || card.number == top.number),
{
}

/// Two cards of the same kind, other than number cards, may be played on
/// each other whatever their colours.
pub proof fn lemma_same_kind_playable(card: UNOCard, top: UNOCard)
    requires
        card.special == top.special,
        card.special != SpecialCard::Base,
    ensures
        is_playable(card, top),
{
}

/// On a card that is not a number card, a number card is never played by
/// its kind: it needs the colour or the number of the top card, and as a top
/// card that is valid bears no number, it needs the colour.
pub proof fn lemma_number_on_other_kind(card: UNOCard, top: UNOCard)
    requires
        card.special == SpecialCard::Base,
        top.special != SpecialCard::Base,
    ensures
        is_playable(card, top) == (card.color == top.color || card.number == top.number),
        card.wf() && top.wf() ==> is_playable(card, top) == (card.color == top.color),
{
}

} // verus!
