use uno_engine::card::{Color, SpecialCard, UNOCard};
use uno_engine::deck::build_deck;
use uno_engine::shuffle::shuffle;
use uno_engine::hand::sort_hand;
use uno_engine::prng::Randler;

#[test]
fn a_hand_is_ordered_by_colour_kind_and_number() {
    let mut hand = vec![
        UNOCard::new(Color::NA, SpecialCard::PlusFour, -1),
        UNOCard::new(Color::Blue, SpecialCard::Base, 3),
        UNOCard::new(Color::Red, SpecialCard::Base, 9),
        UNOCard::new(Color::Red, SpecialCard::Base, 2),
        UNOCard::new(Color::Green, SpecialCard::Skip, -1),
        UNOCard::new(Color::Red, SpecialCard::Reverse, -1),
        UNOCard::new(Color::Yellow, SpecialCard::PlusTwo, -1),
        UNOCard::new(Color::NA, SpecialCard::ColorChange, -1),
        UNOCard::new(Color::Green, SpecialCard::Base, 0),
    ];
    sort_hand(&mut hand);
    let expected = vec![
        UNOCard::new(Color::Red, SpecialCard::Reverse, -1),
        UNOCard::new(Color::Red, SpecialCard::Base, 2),
        UNOCard::new(Color::Red, SpecialCard::Base, 9),
        UNOCard::new(Color::Green, SpecialCard::Skip, -1),
        UNOCard::new(Color::Green, SpecialCard::Base, 0),
        UNOCard::new(Color::Yellow, SpecialCard::PlusTwo, -1),
        UNOCard::new(Color::Blue, SpecialCard::Base, 3),
        UNOCard::new(Color::NA, SpecialCard::PlusFour, -1),
        UNOCard::new(Color::NA, SpecialCard::ColorChange, -1),
    ];
    assert_eq!(hand, expected);
}

#[test]
fn the_order_of_a_hand_is_the_order_of_the_cards() {
    for seed in 1..40u64 {
        let mut deck = build_deck();
        let mut rng = Randler::new(seed);
        shuffle(&mut deck, &mut rng);
        let size = rng.rand_range(0, 108).unwrap() as usize;
        let mut hand = deck[..size].to_vec();
        for card in hand.iter_mut() {
            if card.wild() && rng.rand_range(0, 1) == Some(1) {
                card.color = Color::Blue;
            }
        }
        let mut expected = hand.clone();
        expected.sort();
        sort_hand(&mut hand);
        assert_eq!(hand, expected);
    }
}

#[test]
fn small_hands() {
    let mut empty: Vec<UNOCard> = Vec::new();
    sort_hand(&mut empty);
    assert!(empty.is_empty());
    let card = UNOCard::new(Color::Blue, SpecialCard::Base, 3);
    let mut one = vec![card];
    sort_hand(&mut one);
    assert_eq!(one, vec![card]);
    let mut twins = vec![card, card];
    sort_hand(&mut twins);
    assert_eq!(twins, vec![card, card]);
}
