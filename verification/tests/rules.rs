use uno_engine::card::{Color, SpecialCard, UNOCard};
use uno_engine::rules::{allowed_move, check_countercards};

fn number(color: Color, n: i8) -> UNOCard {
    UNOCard::new(color, SpecialCard::Base, n)
}

fn action(color: Color, kind: SpecialCard) -> UNOCard {
    UNOCard::new(color, kind, -1)
}

fn every_card() -> Vec<UNOCard> {
    let mut cards = Vec::new();
    for color in [Color::Red, Color::Green, Color::Yellow, Color::Blue] {
        for n in 0..=9 {
            cards.push(number(color, n));
        }
        for kind in [SpecialCard::Skip, SpecialCard::Reverse, SpecialCard::PlusTwo] {
            cards.push(action(color, kind));
        }
    }
    for color in [Color::Red, Color::Green, Color::Yellow, Color::Blue, Color::NA] {
        cards.push(action(color, SpecialCard::ColorChange));
        cards.push(action(color, SpecialCard::PlusFour));
    }
    cards
}

#[test]
fn wild_cards_go_on_anything() {
    for top in every_card() {
        assert!(allowed_move(action(Color::NA, SpecialCard::ColorChange), top));
        assert!(allowed_move(action(Color::NA, SpecialCard::PlusFour), top));
        assert!(allowed_move(action(Color::Green, SpecialCard::PlusFour), top));
    }
}

#[test]
fn numbers_go_on_numbers_by_colour_or_number() {
    for card in every_card() {
        for top in every_card() {
            if card.special == SpecialCard::Base && top.special == SpecialCard::Base {
                assert_eq!(
                    allowed_move(card, top),
                    card.color == top.color || card.number == top.number
                );
            }
        }
    }
    assert!(allowed_move(number(Color::Red, 3), number(Color::Red, 8)));
    assert!(allowed_move(number(Color::Red, 3), number(Color::Blue, 3)));
    assert!(!allowed_move(number(Color::Red, 3), number(Color::Blue, 4)));
}

#[test]
fn same_kind_goes_on_same_kind() {
    let colors = [Color::Red, Color::Green, Color::Yellow, Color::Blue];
    for kind in [SpecialCard::Skip, SpecialCard::Reverse, SpecialCard::PlusTwo] {
        for a in colors {
            for b in colors {
                assert!(allowed_move(action(a, kind), action(b, kind)));
            }
        }
    }
    assert!(!allowed_move(
        action(Color::Red, SpecialCard::Skip),
        action(Color::Blue, SpecialCard::Reverse)
    ));
    assert!(allowed_move(
        action(Color::Red, SpecialCard::Skip),
        action(Color::Red, SpecialCard::Reverse)
    ));
}

#[test]
fn numbers_go_on_other_kinds_by_colour_only() {
    for card in every_card() {
        for top in every_card() {
            if card.special == SpecialCard::Base && top.special != SpecialCard::Base {
                assert_eq!(allowed_move(card, top), card.color == top.color);
            }
        }
    }
    assert!(!allowed_move(number(Color::Red, 3), action(Color::Blue, SpecialCard::Skip)));
    assert!(allowed_move(number(Color::Blue, 3), action(Color::Blue, SpecialCard::Skip)));
    assert!(allowed_move(number(Color::Blue, 3), action(Color::Blue, SpecialCard::PlusFour)));
    assert!(!allowed_move(number(Color::Red, 3), action(Color::Blue, SpecialCard::PlusFour)));
}

#[test]
fn action_cards_go_on_their_colour() {
    assert!(allowed_move(action(Color::Green, SpecialCard::PlusTwo), number(Color::Green, 1)));
    assert!(!allowed_move(action(Color::Green, SpecialCard::PlusTwo), number(Color::Red, 1)));
    assert!(allowed_move(
        action(Color::Green, SpecialCard::Reverse),
        action(Color::Green, SpecialCard::ColorChange)
    ));
    assert!(!allowed_move(
        action(Color::Green, SpecialCard::Reverse),
        action(Color::NA, SpecialCard::ColorChange)
    ));
}

#[test]
fn counter_cards_in_a_hand() {
    assert!(!check_countercards(&vec![]));
    assert!(!check_countercards(&vec![
        number(Color::Red, 1),
        action(Color::Red, SpecialCard::Skip),
        action(Color::NA, SpecialCard::ColorChange),
    ]));
    assert!(check_countercards(&vec![
        number(Color::Red, 1),
        action(Color::Blue, SpecialCard::PlusTwo),
    ]));
    assert!(check_countercards(&vec![
        action(Color::NA, SpecialCard::PlusFour),
        number(Color::Red, 1),
    ]));
}
