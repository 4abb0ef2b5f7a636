//! The draw pile and the discard pile: refilling the draw pile when it runs
//! out.

use vstd::prelude::*;
use vstd::seq_lib::lemma_multiset_commutative;
use crate::card::{Color, UNOCard};
use crate::deck::{build_deck, standard_deck};
use crate::prng::Randler;
use crate::shuffle::{lemma_fisher_yates_multiset, shuffle, shuffled, shuffled_state};

verus! {

/// A card as it goes back into the draw pile: a wild card loses the colour
/// that was chosen for it.
pub open spec fn reset_wild(card: UNOCard) -> UNOCard {
    if card.is_wild() {
        UNOCard { color: Color::NA, special: card.special, number: card.number }
    } else {
        card
    }
}

/// A pile with every wild card in it reset.
pub open spec fn reset_wilds(pile: Seq<UNOCard>) -> Seq<UNOCard> {
    Seq::new(pile.len(), |i: int| reset_wild(pile[i]))
}

/// What is done to the draw pile before a card is taken from it.
#[derive(Debug, Copy, Clone, PartialEq, Eq, Structural)]
pub enum Refill {
    /// Nothing: the draw pile holds a card.
    Nothing,
    /// The discard pile is turned over and shuffled into the draw pile.
    TurnedOver,
    /// A new standard deck is shuffled.
    NewDeck,
}

/// What is done to the draw pile `deck` before a card is taken from it,
/// with `discard` as the discard pile.
pub open spec fn refill_of(deck: Seq<UNOCard>, discard: Seq<UNOCard>) -> Refill {
    if deck.len() > 0 {
        Refill::Nothing
    } else if discard.len() > 1 {
        Refill::TurnedOver
    } else {
        Refill::NewDeck
    }
}

/// The draw pile, the discard pile and the state of the generator.
pub struct Piles {
    pub deck: Seq<UNOCard>,
    pub discard: Seq<UNOCard>,
    pub state: u64,
}

/// The piles as `ensure_deck_full` leaves them.
pub open spec fn refilled(deck: Seq<UNOCard>, discard: Seq<UNOCard>, state: u64) -> Piles {
    if deck.len() > 0 {
        Piles { deck, discard, state }
    } else if discard.len() > 1 {
        let pile = reset_wilds(discard);
        Piles {
            deck: shuffled(pile.drop_last(), state),
            discard: seq![pile.last()],
            state: shuffled_state(pile.drop_last(), state),
        }
    } else {
        Piles {
            deck: shuffled(standard_deck(), state),
            discard,
            state: shuffled_state(standard_deck(), state),
        }
    }
}

/// Replaces the pile by a freshly built and shuffled standard deck.
pub fn refresh_deck(deck: &mut Vec<UNOCard>, random: &mut Randler)
    ensures
        final(deck)@ == shuffled(standard_deck(), old(random)@),
        final(random)@ == shuffled_state(standard_deck(), old(random)@),
        final(deck)@.len() == 108,
        final(deck)@.to_multiset() == standard_deck().to_multiset(),
{
    *deck = build_deck();
    shuffle(deck, random);
}

/// Makes sure that a card can be drawn, and says what it took. Call it
/// before every draw.
///
/// A draw pile that holds a card is left alone. An empty one is refilled
/// from the discard pile where that holds more than one card: every wild
/// card in it is reset, its top card stays behind as the whole discard pile,
/// and the rest is shuffled into the draw pile. Where the discard pile holds
/// one card or none, a new standard deck is built and shuffled instead.
pub fn ensure_deck_full(
    deck: &mut Vec<UNOCard>,
    discard: &mut Vec<UNOCard>,
    rand: &mut Randler,
) -> (refill: Refill)
    ensures
        refill == refill_of(old(deck)@, old(discard)@),
        final(deck)@ == refilled(old(deck)@, old(discard)@, old(rand)@).deck,
        final(discard)@ == refilled(old(deck)@, old(discard)@, old(rand)@).discard,
        final(rand)@ == refilled(old(deck)@, old(discard)@, old(rand)@).state,
        final(deck)@.len() > 0,
{
    if deck.is_empty() {
        if discard.len() > 1 {
            let mut i: usize = 0;
            while i < discard.len()
                invariant
                    i <= discard@.len(),
                    discard@.len() == old(discard)@.len(),
                    forall|k: int| 0 <= k < i ==> discard@[k] == reset_wild(old(discard)@[k]),
                    forall|k: int| i <= k < discard@.len() ==> discard@[k] == old(discard)@[k],
                decreases discard@.len() - i,
            {
                let card = discard[i];
                if card.wild() {
                    discard[i] = UNOCard::new(Color::NA, card.special, card.number);
                }
                i += 1;
            }
            assert(discard@ =~= reset_wilds(old(discard)@));
            let top = discard.pop().unwrap();
            deck.append(discard);
            assert(deck@ =~= reset_wilds(old(discard)@).drop_last());
            shuffle(deck, rand);
            discard.push(top);
            assert(discard@ =~= seq![reset_wilds(old(discard)@).last()]);
            Refill::TurnedOver
        } else {
            refresh_deck(deck, rand);
            Refill::NewDeck
        }
    } else {
        Refill::Nothing
    }
}

/// Refilling leaves a card to draw. Where the discard pile is turned over,
/// the two piles together hold as many cards as the discard pile held, the
/// same cards but for the colours of the wild cards, and no wild card in
/// them is coloured. Where a new deck is brought in, the draw pile holds the
/// 108 cards of the standard deck.
pub proof fn lemma_refilled(deck: Seq<UNOCard>, discard: Seq<UNOCard>, state: u64)
    ensures
        refilled(deck, discard, state).deck.len() > 0,
        deck.len() == 0 && discard.len() > 1 ==> {
            let piles = refilled(deck, discard, state);
            &&& piles.deck.len() + piles.discard.len() == discard.len()
            &&& (piles.deck + piles.discard).to_multiset() == reset_wilds(discard).to_multiset()
            &&& forall|i: int|
                0 <= i < piles.deck.len() && (#[trigger] piles.deck[i]).is_wild()
                    ==> piles.deck[i].color == Color::NA
            &&& piles.discard[0].is_wild() ==> piles.discard[0].color == Color::NA
        },
        deck.len() == 0 && discard.len() <= 1 ==> {
            let piles = refilled(deck, discard, state);
            &&& piles.deck.len() == 108
            &&& piles.deck.to_multiset() == standard_deck().to_multiset()
        },
{
    if deck.len() == 0 {
        if discard.len() > 1 {
            let pile = reset_wilds(discard);
            let piles = refilled(deck, discard, state);
            lemma_fisher_yates_multiset(pile.drop_last(), state, pile.drop_last().len());
            lemma_multiset_commutative(piles.deck, piles.discard);
            lemma_multiset_commutative(pile.drop_last(), seq![pile.last()]);
            assert(pile =~= pile.drop_last() + seq![pile.last()]);
            assert forall|i: int|
                0 <= i < piles.deck.len() && (
                #[trigger] piles.deck[i]).is_wild() implies piles.deck[i].color == Color::NA by {
                let card = piles.deck[i];
                piles.deck.to_multiset_ensures();
                pile.drop_last().to_multiset_ensures();
                assert(piles.deck.contains(card));
                assert(piles.deck.to_multiset().count(card) > 0);
                assert(pile.drop_last().to_multiset().count(card) > 0);
                let k = choose|k: int|
                    0 <= k < pile.drop_last().len() && pile.drop_last()[k] == card;
                assert(card == reset_wild(discard[k]));
            }
        } else {
            lemma_fisher_yates_multiset(standard_deck(), state, 108);
        }
    }
}

} // verus!
