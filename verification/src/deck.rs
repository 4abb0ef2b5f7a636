//! The standard deck of 108 cards.

use vstd::prelude::*;
use vstd::seq_lib::lemma_multiset_commutative;
use crate::card::{Color, SpecialCard, UNOCard};

verus! {

/// The number card of the given colour and number.
pub open spec fn number_card(color: Color, number: int) -> UNOCard {
    UNOCard { color, special: SpecialCard::Base, number: number as i8 }
}

/// The card of the given colour and kind that bears no number.
pub open spec fn plain_card(color: Color, special: SpecialCard) -> UNOCard {
    UNOCard { color, special, number: -1i8 }
}

/// The nineteen number cards of a colour: one zero, then two each of one to
/// nine, in rising order.
pub open spec fn number_cards(color: Color) -> Seq<UNOCard> {
    Seq::new(19, |i: int| number_card(color, (i + 1) / 2))
}

/// The six action cards of a colour: two Reverse, two Skip, two Draw 2.
pub open spec fn action_cards(color: Color) -> Seq<UNOCard> {
    seq![
        plain_card(color, SpecialCard::Reverse),
        plain_card(color, SpecialCard::Reverse),
        plain_card(color, SpecialCard::Skip),
        plain_card(color, SpecialCard::Skip),
        plain_card(color, SpecialCard::PlusTwo),
        plain_card(color, SpecialCard::PlusTwo),
    ]
}

/// The twenty-five cards of a colour.
pub open spec fn suit(color: Color) -> Seq<UNOCard> {
    number_cards(color) + action_cards(color)
}

/// The eight wild cards, a colour change and a Draw 4 in turn, none of them
/// coloured.
pub open spec fn wild_cards() -> Seq<UNOCard> {
    Seq::new(
        8,
        |i: int|
            plain_card(
                Color::NA,
                if i % 2 == 0 {
                    SpecialCard::ColorChange
                } else {
                    SpecialCard::PlusFour
                },
            ),
    )
}

/// The standard deck of 108 cards in the order in which it is built.
pub open spec fn standard_deck() -> Seq<UNOCard> {
    suit(Color::Red) + suit(Color::Green) + suit(Color::Yellow) + suit(Color::Blue)
        + wild_cards()
}

/// How many copies of a card the standard deck holds: of each colour one
/// zero, two of every other number and two of every action card; four of
/// each wild card, uncoloured; and nothing else.
pub open spec fn copies_in_deck(card: UNOCard) -> nat {
    if !card.wf() {
        0
    } else if card.is_wild() {
        if card.color == Color::NA {
            4
        } else {
            0
        }
    } else if card.special == SpecialCard::Base && card.number == 0 {
        1
    } else {
        2
    }
}

/// Appends the twenty-five cards of a colour.
fn push_suit(deck: &mut Vec<UNOCard>, color: Color)
    ensures
        final(deck)@ == old(deck)@ + suit(color),
{
    let ghost before = deck@;
    let mut n: i8 = 0;
    while n <= 9
        invariant
            0 <= n <= 10,
            deck@ == before + number_cards(color).take(
                if n == 0 {
                    0
                } else {
                    2 * n - 1
                },
            ),
        decreases 10 - n,
    {
        let ghost done: int = if n == 0 { 0 } else { 2 * n - 1 };
        deck.push(UNOCard::new(color, SpecialCard::Base, n));
        if n != 0 {
            deck.push(UNOCard::new(color, SpecialCard::Base, n));
            assert(deck@ =~= before + number_cards(color).take(done + 2));
        } else {
            assert(deck@ =~= before + number_cards(color).take(done + 1));
        }
        n += 1;
    }
    assert(number_cards(color).take(19) =~= number_cards(color));
    deck.push(UNOCard::new(color, SpecialCard::Reverse, -1));
    deck.push(UNOCard::new(color, SpecialCard::Reverse, -1));
    deck.push(UNOCard::new(color, SpecialCard::Skip, -1));
    deck.push(UNOCard::new(color, SpecialCard::Skip, -1));
    deck.push(UNOCard::new(color, SpecialCard::PlusTwo, -1));
    deck.push(UNOCard::new(color, SpecialCard::PlusTwo, -1));
    assert(deck@ =~= before + suit(color));
}

/// Builds the standard deck, unshuffled.
pub fn build_deck() -> (deck: Vec<UNOCard>)
    ensures
        deck@ == standard_deck(),
        deck@.len() == 108,
{
    let mut deck: Vec<UNOCard> = Vec::with_capacity(108);
    push_suit(&mut deck, Color::Red);
    push_suit(&mut deck, Color::Green);
    push_suit(&mut deck, Color::Yellow);
    push_suit(&mut deck, Color::Blue);
    let ghost suits = deck@;
    assert(suits =~= suit(Color::Red) + suit(Color::Green) + suit(Color::Yellow) + suit(
        Color::Blue,
    ));
    let mut k: usize = 0;
    while k < 4
        invariant
            k <= 4,
            deck@ == suits + wild_cards().take(2 * k),
        decreases 4 - k,
    {
        deck.push(UNOCard::new(Color::NA, SpecialCard::ColorChange, -1));
        deck.push(UNOCard::new(Color::NA, SpecialCard::PlusFour, -1));
        assert(deck@ =~= suits + wild_cards().take(2 * k + 2));
        k += 1;
    }
    assert(wild_cards().take(8) =~= wild_cards());
    deck
}

/// How many of the first `k` number cards of a colour bear the number `n`.
spec fn number_hits(k: int, n: int) -> nat {
    if n < 0 || n > 9 {
        0
    } else if n == 0 {
        if k >= 1 {
            1
        } else {
            0
        }
    } else if k <= 2 * n - 1 {
        0
    } else if k == 2 * n {
        1
    } else {
        2
    }
}

/// The first `k` number cards of a colour hold `number_hits` copies of a
/// number card of that colour, and no other card.
proof fn lemma_count_number_cards(color: Color, card: UNOCard, k: int)
    requires
        0 <= k <= 19,
    ensures
        number_cards(color).take(k).to_multiset().count(card) == if card.color == color
            && card.special == SpecialCard::Base {
            number_hits(k, card.number as int)
        } else {
            0
        },
    decreases k,
{
    broadcast use vstd::multiset::group_multiset_axioms;

    let cards = number_cards(color);
    if k == 0 {
        assert(cards.take(0) =~= Seq::<UNOCard>::empty());
        cards.take(0).to_multiset_ensures();
    } else {
        lemma_count_number_cards(color, card, k - 1);
        assert(cards.take(k) =~= cards.take(k - 1).push(cards[k - 1]));
        cards.take(k - 1).to_multiset_ensures();
    }
}

/// The first `k` pairs of wild cards hold `k` copies of each uncoloured wild
/// card, and no other card.
proof fn lemma_count_wild_cards(card: UNOCard, k: int)
    requires
        0 <= k <= 4,
    ensures
        wild_cards().take(2 * k).to_multiset().count(card) == if card.color == Color::NA
            && card.is_wild() && card.number == -1 {
            k as nat
        } else {
            0
        },
    decreases k,
{
    broadcast use vstd::multiset::group_multiset_axioms;

    let cards = wild_cards();
    if k == 0 {
        assert(cards.take(0) =~= Seq::<UNOCard>::empty());
        cards.take(0).to_multiset_ensures();
    } else {
        lemma_count_wild_cards(card, k - 1);
        let even = cards.take(2 * k - 2);
        let odd = even.push(cards[2 * k - 2]);
        assert(cards.take(2 * k) =~= odd.push(cards[2 * k - 1]));
        even.to_multiset_ensures();
        odd.to_multiset_ensures();
    }
}

/// The cards of a colour hold of each card of that colour as many copies as
/// the deck, and no other card.
proof fn lemma_count_suit(color: Color, card: UNOCard)
    requires
        color != Color::NA,
    ensures
        suit(color).to_multiset().count(card) == if card.color == color {
            copies_in_deck(card)
        } else {
            0
        },
{
    broadcast use vstd::multiset::group_multiset_axioms;

    lemma_count_number_cards(color, card, 19);
    assert(number_cards(color).take(19) =~= number_cards(color));
    lemma_multiset_commutative(number_cards(color), action_cards(color));
    let reverse = plain_card(color, SpecialCard::Reverse);
    let skip = plain_card(color, SpecialCard::Skip);
    let two = plain_card(color, SpecialCard::PlusTwo);
    let s0 = Seq::<UNOCard>::empty();
    let s1 = s0.push(reverse);
    let s2 = s1.push(reverse);
    let s3 = s2.push(skip);
    let s4 = s3.push(skip);
    let s5 = s4.push(two);
    assert(action_cards(color) =~= s5.push(two));
    s0.to_multiset_ensures();
    s1.to_multiset_ensures();
    s2.to_multiset_ensures();
    s3.to_multiset_ensures();
    s4.to_multiset_ensures();
    s5.to_multiset_ensures();
}

/// The standard deck holds 108 cards, and of every card as many copies as
/// `copies_in_deck` says.
pub proof fn lemma_standard_deck_composition(card: UNOCard)
    ensures
        standard_deck().len() == 108,
        standard_deck().to_multiset().count(card) == copies_in_deck(card),
{
    broadcast use vstd::multiset::group_multiset_axioms;

    let red = suit(Color::Red);
    let green = suit(Color::Green);
    let yellow = suit(Color::Yellow);
    let blue = suit(Color::Blue);
    lemma_count_suit(Color::Red, card);
    lemma_count_suit(Color::Green, card);
    lemma_count_suit(Color::Yellow, card);
    lemma_count_suit(Color::Blue, card);
    lemma_count_wild_cards(card, 4);
    assert(wild_cards().take(8) =~= wild_cards());
    lemma_multiset_commutative(red, green);
    lemma_multiset_commutative(red + green, yellow);
    lemma_multiset_commutative(red + green + yellow, blue);
    lemma_multiset_commutative(red + green + yellow + blue, wild_cards());
}

/// Every card of the standard deck meets the card invariant.
pub proof fn lemma_standard_deck_wf(i: int)
    requires
        0 <= i < 108,
    ensures
        standard_deck()[i].wf(),
{
}

} // verus!
