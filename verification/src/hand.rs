//! Hands: the order in which a hand is kept.

use vstd::prelude::*;
use crate::card::{Color, SpecialCard, UNOCard};
use crate::shuffle::{lemma_swapped_multiset, swap_cards};

verus! {

/// Place of a colour in the order of a hand.
pub open spec fn color_rank(color: Color) -> int {
    match color {
        Color::Red => 0,
        Color::Green => 1,
        Color::Yellow => 2,
        Color::Blue => 3,
        Color::NA => 4,
    }
}

/// Place of a kind in the order of a hand.
pub open spec fn kind_rank(special: SpecialCard) -> int {
    match special {
        SpecialCard::PlusFour => 0,
        SpecialCard::ColorChange => 1,
        SpecialCard::PlusTwo => 2,
        SpecialCard::Skip => 3,
        SpecialCard::Reverse => 4,
        SpecialCard::Base => 5,
    }
}

/// The key by which a hand is ordered: by colour, then by kind, then by
/// number. Different cards have different keys.
pub open spec fn card_key(card: UNOCard) -> int {
    (color_rank(card.color) * 6 + kind_rank(card.special)) * 256 + (card.number + 128)
}

/// Whether the cards of `hand` stand in rising order of their keys.
pub open spec fn is_sorted(hand: Seq<UNOCard>) -> bool {
    forall|i: int, j: int| 0 <= i <= j < hand.len() ==> card_key(hand[i]) <= card_key(hand[j])
}

/// The hand in order: the one sorted sequence of the same cards.
pub open spec fn sorted(hand: Seq<UNOCard>) -> Seq<UNOCard> {
    choose|s: Seq<UNOCard>| is_sorted(s) && s.to_multiset() == hand.to_multiset()
}

/// The key of a card.
fn key_of(card: &UNOCard) -> (key: i32)
    ensures
        key == card_key(*card),
{
    let color: i32 = match card.color {
        Color::Red => 0,
        Color::Green => 1,
        Color::Yellow => 2,
        Color::Blue => 3,
        Color::NA => 4,
    };
    let kind: i32 = match card.special {
        SpecialCard::PlusFour => 0,
        SpecialCard::ColorChange => 1,
        SpecialCard::PlusTwo => 2,
        SpecialCard::Skip => 3,
        SpecialCard::Reverse => 4,
        SpecialCard::Base => 5,
    };
    (color * 6 + kind) * 256 + (card.number as i32 + 128)
}

/// Puts a hand in order: by colour, then by kind, then by number. The cards
/// stay the same.
pub fn sort_hand(hand: &mut Vec<UNOCard>)
    ensures
        final(hand)@ == sorted(old(hand)@),
        is_sorted(final(hand)@),
        final(hand)@.len() == old(hand)@.len(),
        final(hand)@.to_multiset() == old(hand)@.to_multiset(),
{
    let n = hand.len();
    let mut i: usize = 0;
    while i < n
        invariant
            i <= n,
            hand@.len() == n,
            hand@.to_multiset() == old(hand)@.to_multiset(),
            is_sorted(hand@.take(i as int)),
        decreases n - i,
    {
        let mut j: usize = i;
        assert forall|a: int, b: int| 0 <= a <= b < i implies card_key(hand@[a]) <= card_key(
            hand@[b],
        ) by {
            assert(hand@.take(i as int)[a] == hand@[a]);
            assert(hand@.take(i as int)[b] == hand@[b]);
        }
        while j > 0 && key_of(&hand[j]) < key_of(&hand[j - 1])
            invariant
                j <= i < n,
                hand@.len() == n,
                hand@.to_multiset() == old(hand)@.to_multiset(),
                forall|a: int, b: int|
                    0 <= a <= b <= i && a != j && b != j ==> card_key(hand@[a]) <= card_key(
                        hand@[b],
                    ),
                forall|b: int| j < b <= i ==> card_key(hand@[j as int]) <= card_key(hand@[b]),
            decreases j,
        {
            proof {
                lemma_swapped_multiset(hand@, j as int, j - 1);
            }
            swap_cards(hand, j, j - 1);
            j -= 1;
        }
        i += 1;
        assert(is_sorted(hand@.take(i as int))) by {
            assert forall|a: int, b: int| 0 <= a <= b < i implies card_key(hand@.take(i as int)[a])
                <= card_key(hand@.take(i as int)[b]) by {
                if a == j && b != j {
                } else if b == j && a != j {
                    if j > 0 {
                        assert(card_key(hand@[a]) <= card_key(hand@[j - 1]));
                    }
                }
            }
        }
    }
    assert(hand@.take(n as int) =~= hand@);
    proof {
        lemma_sorted_hand_unique(hand@, sorted(old(hand)@));
    }
}

/// The sorted hand is sorted and holds the cards of the hand.
pub proof fn lemma_sorted(hand: Seq<UNOCard>)
    ensures
        is_sorted(sorted(hand)),
        sorted(hand).to_multiset() == hand.to_multiset(),
        sorted(hand).len() == hand.len(),
{
    let witness = hand.sort_by(key_order());
    lemma_total_order();
    hand.lemma_sort_by_ensures(key_order());
    assert(is_sorted(witness)) by {
        assert forall|i: int, j: int| 0 <= i <= j < witness.len() implies card_key(witness[i])
            <= card_key(witness[j]) by {
            if i < j {
                assert(key_order()(witness[i], witness[j]));
            }
        }
    }
    sorted(hand).to_multiset_ensures();
    hand.to_multiset_ensures();
}

/// The order of cards by their keys.
spec fn key_order() -> spec_fn(UNOCard, UNOCard) -> bool {
    |a: UNOCard, b: UNOCard| card_key(a) <= card_key(b)
}

/// The order by keys is total.
proof fn lemma_total_order()
    ensures
        vstd::relations::total_ordering(key_order()),
{
    let leq = key_order();
    assert forall|a: UNOCard, b: UNOCard| #[trigger] leq(a, b) && leq(b, a) implies a == b by {
        lemma_card_key_injective(a, b);
    }
}

/// Different cards have different keys, so the order of a hand leaves no
/// choice between two cards.
pub proof fn lemma_card_key_injective(a: UNOCard, b: UNOCard)
    requires
        card_key(a) == card_key(b),
    ensures
        a == b,
{
}

/// A hand has one sorted order: two sorted hands of the same cards are the
/// same sequence.
pub proof fn lemma_sorted_hand_unique(x: Seq<UNOCard>, y: Seq<UNOCard>)
    requires
        is_sorted(x),
        is_sorted(y),
        x.to_multiset() == y.to_multiset(),
    ensures
        x == y,
{
    let leq = key_order();
    lemma_total_order();
    vstd::seq_lib::lemma_sorted_unique(x, y, leq);
}

} // verus!
