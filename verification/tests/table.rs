use uno_engine::card::{Color, Difficulty, SpecialCard, UNOCard};
use uno_engine::deck::build_deck;
use uno_engine::shuffle::shuffle;
use uno_engine::error::GameError;
use uno_engine::game::Game;
use uno_engine::prng::Randler;
use uno_engine::piles::Refill;
use uno_engine::table::{AiTurn, Drawn, Pending, Phase, Table, TurnEnd};

fn number(color: Color, n: i8) -> UNOCard {
    UNOCard::new(color, SpecialCard::Base, n)
}

fn action(color: Color, kind: SpecialCard) -> UNOCard {
    UNOCard::new(color, kind, -1)
}

fn change() -> UNOCard {
    action(Color::NA, SpecialCard::ColorChange)
}

fn four() -> UNOCard {
    action(Color::NA, SpecialCard::PlusFour)
}

/// A table between two turns, with the first seat in turn and nothing
/// pending. The first `humans` seats are human players.
fn table_of(hands: Vec<Vec<UNOCard>>, deck: Vec<UNOCard>, top: UNOCard, humans: u8) -> Table {
    let seats = hands.len() as i8;
    Table {
        hands,
        deck,
        discard: Vec::new(),
        last_played: top,
        game: Game::new(0, seats, 1),
        players: humans,
        difficulty: Difficulty::Calm,
        add_queue: 0,
        skipped: false,
        uno: false,
        countercards: false,
        getting_added_to: true,
        phase: Phase::Idle,
        rand: Randler::new(1),
        drawn: Vec::new(),
    }
}

fn plain(card: UNOCard) -> Drawn {
    Drawn { card, refill: Refill::Nothing }
}

fn cards_on(table: &Table) -> usize {
    table.deck.len() + table.discard.len() + table.hands.iter().map(|h| h.len()).sum::<usize>()
}

fn spare_deck() -> Vec<UNOCard> {
    vec![number(Color::Blue, 1), number(Color::Blue, 2), number(Color::Blue, 3), number(Color::Blue, 4)]
}

#[test]
fn a_table_needs_a_hand_for_every_seat() {
    let hands = vec![vec![number(Color::Red, 5)], vec![number(Color::Red, 1)]];
    let mut table = table_of(hands, spare_deck(), number(Color::Red, 9), 2);
    assert!(table.is_valid());
    assert!(!table.is_ai_turn());
    table.hands.push(vec![]);
    assert!(!table.is_valid());
    table.hands.pop();
    table.game = Game::new(2, 2, 1);
    assert!(!table.is_valid());
    table.game = Game::new(1, 2, 1);
    table.players = 1;
    assert!(table.is_valid());
    assert!(table.is_ai_turn());
}

#[test]
fn two_players_are_dealt_seven_cards_each() {
    let table = Table::deal(2, 0, Difficulty::Calm, Randler::new(2024)).unwrap();
    assert!(table.is_valid());
    assert_eq!(table.hands.len(), 2);
    let first = vec![
        UNOCard::new(Color::Red, SpecialCard::Base, 0),
        UNOCard::new(Color::NA, SpecialCard::ColorChange, -1),
        UNOCard::new(Color::Yellow, SpecialCard::Base, 4),
        UNOCard::new(Color::Blue, SpecialCard::Base, 8),
        UNOCard::new(Color::Blue, SpecialCard::Reverse, -1),
        UNOCard::new(Color::Yellow, SpecialCard::Skip, -1),
        UNOCard::new(Color::Blue, SpecialCard::PlusTwo, -1),
    ];
    let second = vec![
        UNOCard::new(Color::Blue, SpecialCard::Base, 4),
        UNOCard::new(Color::Green, SpecialCard::Base, 9),
        UNOCard::new(Color::Yellow, SpecialCard::Base, 8),
        UNOCard::new(Color::Yellow, SpecialCard::PlusTwo, -1),
        UNOCard::new(Color::Green, SpecialCard::Skip, -1),
        UNOCard::new(Color::Green, SpecialCard::Base, 5),
        UNOCard::new(Color::NA, SpecialCard::PlusFour, -1),
    ];
    assert_eq!(table.hands[0], first);
    assert_eq!(table.hands[1], second);
    assert_eq!(table.deck.len(), 93);
    assert_eq!(table.deck[90..].to_vec(), vec![number(Color::Green, 6), number(Color::Green, 8), number(Color::Red, 7)]);
    assert_eq!(table.last_played, number(Color::Red, 8));
    assert!(table.discard.is_empty());
    assert_eq!(table.game, Game::new(0, 2, 1));
    assert_eq!(table.players, 2);
    assert_eq!(table.add_queue, 0);
    assert!(!table.skipped);
    assert!(!table.uno);
    assert_eq!(table.phase, Phase::Idle);
    let mut rand = table.rand;
    assert_eq!(rand.rand(), Randler::new(0x96a901b8d61ad55e).rand());
    let mut dealt = table.hands[0].clone();
    dealt.extend(table.hands[1].iter());
    let record: Vec<Drawn> = dealt.into_iter().map(plain).collect();
    assert_eq!(table.drawn, record);
}

#[test]
fn dealing_is_decided_by_the_seed() {
    for seed in 1..30u64 {
        let a = Table::deal(2, 0, Difficulty::Calm, Randler::new(seed)).unwrap();
        let b = Table::deal(1, 1, Difficulty::Skilled, Randler::new(seed)).unwrap();
        assert_eq!(a.hands, b.hands);
        assert_eq!(a.deck, b.deck);
        assert_eq!(a.last_played, b.last_played);
        assert_eq!(a.hands[0].len(), 7);
        assert_eq!(a.hands[1].len(), 7);
        assert_eq!(a.deck.len(), 108 - 14 - 1);
        assert_ne!(a.last_played.color, Color::NA);
        let mut all = a.deck.clone();
        all.extend(a.hands[0].iter());
        all.extend(a.hands[1].iter());
        let mut top = a.last_played;
        if top.wild() {
            top.color = Color::NA;
        }
        all.push(top);
        all.sort();
        let mut deck = build_deck();
        deck.sort();
        assert_eq!(all, deck);
    }
}

#[test]
fn a_wild_top_card_is_given_a_colour_from_the_generator() {
    let table = Table::deal(2, 0, Difficulty::Calm, Randler::new(1)).unwrap();
    assert_eq!(table.last_played, action(Color::Red, SpecialCard::ColorChange));
    assert_eq!(table.add_queue, 0);
    assert!(!table.skipped);
    let mut rand = table.rand;
    assert_eq!(rand.rand(), Randler::new(0x163cedb6096517f4).rand());

    let mut deck = build_deck();
    let mut rng = Randler::new(1);
    shuffle(&mut deck, &mut rng);
    assert_eq!(deck[108 - 15], change());
    assert_eq!(rng.rand_range(0, 3), Some(0));
}

#[test]
fn the_cards_are_dealt_from_the_end_of_the_shuffled_deck() {
    let table = Table::deal(3, 2, Difficulty::Calm, Randler::new(9)).unwrap();
    let mut deck = build_deck();
    shuffle(&mut deck, &mut Randler::new(9));
    for seat in 0..5 {
        for k in 0..7 {
            assert_eq!(table.hands[seat][k], deck[107 - (7 * seat + k)]);
        }
    }
    assert_eq!(table.deck, deck[..108 - 36].to_vec());
    assert_eq!(table.players, 3);
    assert_eq!(table.game, Game::new(0, 5, 1));
}

#[test]
fn a_large_table_is_dealt_from_more_than_one_deck() {
    let table = Table::deal(10, 6, Difficulty::Calm, Randler::new(5)).unwrap();
    assert_eq!(table.hands.len(), 16);
    assert!(table.hands.iter().all(|hand| hand.len() == 7));
    assert_eq!(table.deck.len(), 103);
    assert_eq!(table.last_played, number(Color::Yellow, 6));
    let last = vec![
        number(Color::Green, 6),
        number(Color::Yellow, 8),
        number(Color::Blue, 1),
        number(Color::Red, 2),
        number(Color::Red, 1),
        four(),
        number(Color::Blue, 3),
    ];
    assert_eq!(table.hands[15], last);
    assert_eq!(table.drawn.len(), 112);
    for (place, drawn) in table.drawn.iter().enumerate() {
        assert_eq!(drawn.card, table.hands[place / 7][place % 7]);
        assert_eq!(drawn.refill == Refill::NewDeck, place == 108);
        assert_ne!(drawn.refill, Refill::TurnedOver);
    }
    let mut table = Table::deal(0, 127, Difficulty::Calm, Randler::new(1)).unwrap();
    let record = table.take_drawn();
    assert!(table.drawn.is_empty());
    assert_eq!(record.len(), 889);
    assert_eq!(record.iter().filter(|d| d.refill == Refill::NewDeck).count(), 8);
    assert_eq!(table.hands.len(), 127);
    assert_eq!(table.deck.len(), 82);
    assert!(table.is_valid());
}

#[test]
fn tables_that_cannot_be_dealt() {
    let none = Table::deal(0, 0, Difficulty::Calm, Randler::new(1));
    assert!(matches!(none, Err(GameError::NoPlayers)));
    let many = Table::deal(100, 28, Difficulty::Calm, Randler::new(1));
    assert!(matches!(many, Err(GameError::TooManyPlayers)));
    let most = Table::deal(255, 255, Difficulty::Calm, Randler::new(1));
    assert!(matches!(most, Err(GameError::TooManyPlayers)));
    let used_up = Table::deal(100, 8, Difficulty::Calm, Randler::new(1));
    assert!(matches!(used_up, Err(GameError::OutOfCards)));
    assert!(Table::deal(100, 7, Difficulty::Calm, Randler::new(1)).is_ok());
    assert!(Table::deal(100, 9, Difficulty::Calm, Randler::new(1)).is_ok());
}

#[test]
fn a_draw_two_costs_the_next_player_two_cards_and_the_turn() {
    let hands = vec![
        vec![number(Color::Red, 5), action(Color::Red, SpecialCard::PlusTwo)],
        vec![number(Color::Green, 1), number(Color::Green, 2)],
    ];
    let mut table = table_of(hands, spare_deck(), number(Color::Red, 9), 2);
    assert_eq!(table.start_turn(), Ok(()));
    assert_eq!(table.hands[0], vec![action(Color::Red, SpecialCard::PlusTwo), number(Color::Red, 5)]);
    assert_eq!(table.settle_pending(), Ok(Pending::Clear));
    assert_eq!(table.play_card(1), Ok(action(Color::Red, SpecialCard::PlusTwo)));
    assert_eq!(table.add_queue, 2);
    assert_eq!(table.phase, Phase::Closing);
    assert_eq!(table.end_turn(), Ok(TurnEnd { forced: 0, uno: true, winner: None }));
    assert_eq!(table.game.current_player, 1);

    assert_eq!(table.start_turn(), Ok(()));
    assert_eq!(table.settle_pending(), Ok(Pending::Forced(2)));
    assert_eq!(
        table.hands[1],
        vec![number(Color::Green, 1), number(Color::Green, 2), number(Color::Blue, 4), number(Color::Blue, 3)]
    );
    assert_eq!(table.add_queue, 0);
    assert!(!table.skipped);
    assert_eq!(table.phase, Phase::Closing);
    assert_eq!(
        table.take_drawn(),
        vec![plain(number(Color::Blue, 4)), plain(number(Color::Blue, 3))]
    );
    assert!(table.take_drawn().is_empty());
    assert_eq!(table.play_card(1), Err(GameError::WrongPhase));
    assert_eq!(table.draw_card(), Err(GameError::WrongPhase));
    assert_eq!(table.end_turn(), Ok(TurnEnd { forced: 0, uno: false, winner: None }));
    assert_eq!(table.last_played, action(Color::Red, SpecialCard::PlusTwo));
    assert_eq!(table.discard, vec![action(Color::Red, SpecialCard::PlusTwo)]);
    assert_eq!(table.deck, vec![number(Color::Blue, 1), number(Color::Blue, 2)]);
    assert_eq!(table.game.current_player, 0);
    assert_eq!(table.phase, Phase::Idle);
}

#[test]
fn a_penalty_is_passed_on_with_a_counter_card() {
    let hands = vec![
        vec![number(Color::Red, 5), action(Color::Red, SpecialCard::PlusTwo)],
        vec![number(Color::Green, 1), action(Color::Green, SpecialCard::PlusTwo)],
        vec![number(Color::Yellow, 1), number(Color::Yellow, 2)],
    ];
    let mut deck = spare_deck();
    deck.push(number(Color::Blue, 5));
    let mut table = table_of(hands, deck, number(Color::Red, 9), 3);
    table.start_turn().unwrap();
    table.settle_pending().unwrap();
    table.play_card(1).unwrap();
    table.end_turn().unwrap();
    table.start_turn().unwrap();
    assert_eq!(table.settle_pending(), Ok(Pending::Clear));
    assert_eq!(table.play_card(1), Ok(action(Color::Green, SpecialCard::PlusTwo)));
    assert_eq!(table.add_queue, 4);
    assert_eq!(table.end_turn(), Ok(TurnEnd { forced: 0, uno: true, winner: None }));
    table.start_turn().unwrap();
    assert_eq!(table.settle_pending(), Ok(Pending::Forced(4)));
    assert_eq!(table.hands[2].len(), 6);
    assert_eq!(table.deck, vec![number(Color::Blue, 1)]);
    assert_eq!(table.add_queue, 0);
}

#[test]
fn a_counter_card_that_is_held_back_does_not_spare_the_penalty() {
    let hands = vec![
        vec![number(Color::Red, 5), action(Color::Red, SpecialCard::PlusTwo)],
        vec![number(Color::Red, 1), action(Color::Green, SpecialCard::PlusTwo), number(Color::Green, 7)],
    ];
    let mut table = table_of(hands, spare_deck(), number(Color::Red, 9), 2);
    table.start_turn().unwrap();
    table.settle_pending().unwrap();
    table.play_card(1).unwrap();
    table.end_turn().unwrap();
    table.start_turn().unwrap();
    assert_eq!(table.settle_pending(), Ok(Pending::Clear));
    assert_eq!(table.hands[1][0], number(Color::Red, 1));
    assert_eq!(table.play_card(1), Ok(number(Color::Red, 1)));
    assert_eq!(table.add_queue, 2);
    assert_eq!(table.end_turn(), Ok(TurnEnd { forced: 2, uno: false, winner: None }));
    assert_eq!(table.add_queue, 0);
    assert_eq!(
        table.hands[1],
        vec![
            action(Color::Green, SpecialCard::PlusTwo),
            number(Color::Green, 7),
            number(Color::Blue, 4),
            number(Color::Blue, 3)
        ]
    );
}

#[test]
fn a_draw_four_skips_and_a_counter_card_only_delays_the_penalty() {
    let hands = vec![
        vec![number(Color::Red, 5), four()],
        vec![number(Color::Red, 1), action(Color::Green, SpecialCard::PlusTwo)],
    ];
    let mut table = table_of(hands, spare_deck(), number(Color::Red, 9), 2);
    table.start_turn().unwrap();
    table.settle_pending().unwrap();
    assert_eq!(table.play_card(2), Ok(four()));
    assert_eq!(table.phase, Phase::Coloring);
    assert_eq!(table.end_turn(), Err(GameError::WrongPhase));
    assert_eq!(table.choose_color(Color::NA), Err(GameError::NoColor));
    assert_eq!(table.phase, Phase::Coloring);
    assert_eq!(table.choose_color(Color::Green), Ok(()));
    assert_eq!(table.last_played, action(Color::Green, SpecialCard::PlusFour));
    assert_eq!(table.discard, vec![four()]);
    assert_eq!(table.add_queue, 4);
    assert!(table.skipped);
    table.end_turn().unwrap();

    table.start_turn().unwrap();
    assert_eq!(table.settle_pending(), Ok(Pending::Skipped));
    assert!(!table.skipped);
    assert_eq!(table.add_queue, 4);
    assert_eq!(table.end_turn(), Ok(TurnEnd { forced: 4, uno: false, winner: None }));
    assert_eq!(table.hands[1].len(), 6);
    assert!(table.deck.is_empty());
    assert_eq!(table.add_queue, 0);
}

#[test]
fn a_draw_four_on_a_player_without_a_counter_card() {
    let hands = vec![vec![number(Color::Red, 5), four()], vec![number(Color::Red, 1)]];
    let mut table = table_of(hands, spare_deck(), number(Color::Red, 9), 2);
    table.start_turn().unwrap();
    table.settle_pending().unwrap();
    table.play_card(2).unwrap();
    table.choose_color(Color::Blue).unwrap();
    table.end_turn().unwrap();
    table.start_turn().unwrap();
    assert_eq!(table.settle_pending(), Ok(Pending::Forced(4)));
    assert!(!table.skipped);
    assert_eq!(table.hands[1].len(), 5);
    table.end_turn().unwrap();
    assert_eq!(table.game.current_player, 0);
    table.start_turn().unwrap();
    assert_eq!(table.settle_pending(), Ok(Pending::Clear));
}

#[test]
fn at_a_table_of_two_a_reverse_is_a_skip() {
    for kind in [SpecialCard::Reverse, SpecialCard::Skip] {
        let hands = vec![
            vec![number(Color::Red, 5), action(Color::Red, kind), number(Color::Red, 6)],
            vec![number(Color::Green, 1), number(Color::Green, 2)],
        ];
        let mut table = table_of(hands, spare_deck(), number(Color::Red, 9), 2);
        table.start_turn().unwrap();
        table.settle_pending().unwrap();
        assert_eq!(table.play_card(1), Ok(action(Color::Red, kind)));
        assert!(table.skipped);
        assert_eq!(table.game.direction, 1);
        table.end_turn().unwrap();
        assert_eq!(table.game.current_player, 1);
        table.start_turn().unwrap();
        assert_eq!(table.settle_pending(), Ok(Pending::Skipped));
        assert_eq!(table.end_turn(), Ok(TurnEnd { forced: 0, uno: false, winner: None }));
        assert_eq!(table.hands[1], vec![number(Color::Green, 1), number(Color::Green, 2)]);
        assert_eq!(table.game.current_player, 0);
        assert_eq!(table.game.direction, 1);
        table.start_turn().unwrap();
        assert_eq!(table.settle_pending(), Ok(Pending::Clear));
    }
}

#[test]
fn at_a_larger_table_a_reverse_turns_the_direction() {
    let hands = vec![
        vec![number(Color::Red, 5), action(Color::Red, SpecialCard::Reverse), number(Color::Red, 6)],
        vec![number(Color::Green, 1)],
        vec![number(Color::Green, 2)],
    ];
    let mut table = table_of(hands, spare_deck(), number(Color::Red, 9), 3);
    table.start_turn().unwrap();
    table.settle_pending().unwrap();
    table.play_card(1).unwrap();
    assert!(!table.skipped);
    assert_eq!(table.game.direction, -1);
    table.end_turn().unwrap();
    assert_eq!(table.game.current_player, 2);
    table.start_turn().unwrap();
    assert_eq!(table.settle_pending(), Ok(Pending::Clear));
}

#[test]
fn a_skip_at_a_larger_table() {
    let hands = vec![
        vec![number(Color::Red, 5), action(Color::Red, SpecialCard::Skip), number(Color::Red, 6)],
        vec![number(Color::Green, 1)],
        vec![number(Color::Green, 2)],
    ];
    let mut table = table_of(hands, spare_deck(), number(Color::Red, 9), 3);
    table.start_turn().unwrap();
    table.settle_pending().unwrap();
    table.play_card(1).unwrap();
    table.end_turn().unwrap();
    assert_eq!(table.game.current_player, 1);
    table.start_turn().unwrap();
    assert_eq!(table.settle_pending(), Ok(Pending::Skipped));
    table.end_turn().unwrap();
    assert_eq!(table.game.current_player, 2);
    table.start_turn().unwrap();
    assert_eq!(table.settle_pending(), Ok(Pending::Clear));
}

#[test]
fn a_hand_of_one_card_is_marked_and_a_skilled_player_sheds() {
    let hands = vec![
        vec![number(Color::Red, 5), number(Color::Red, 6)],
        vec![number(Color::Red, 1), action(Color::Red, SpecialCard::Skip), number(Color::Red, 2)],
    ];
    let mut table = table_of(hands, spare_deck(), number(Color::Red, 9), 1);
    table.difficulty = Difficulty::Skilled;
    table.start_turn().unwrap();
    table.settle_pending().unwrap();
    assert_eq!(table.play_card(1), Ok(number(Color::Red, 5)));
    assert!(!table.uno);
    assert_eq!(table.end_turn(), Ok(TurnEnd { forced: 0, uno: true, winner: None }));
    assert!(table.uno);

    table.start_turn().unwrap();
    table.settle_pending().unwrap();
    assert!(table.is_ai_turn());
    assert_eq!(
        table.ai_turn(),
        Ok(AiTurn { drawn: 0, played: action(Color::Red, SpecialCard::Skip) })
    );
    assert_eq!(table.hands[1], vec![number(Color::Red, 1), number(Color::Red, 2)]);
}

#[test]
fn without_the_mark_a_skilled_player_plays_its_numbers() {
    let hands = vec![
        vec![number(Color::Red, 5), number(Color::Red, 6)],
        vec![number(Color::Red, 1), action(Color::Red, SpecialCard::Skip), number(Color::Red, 2)],
    ];
    let mut table = table_of(hands, spare_deck(), number(Color::Red, 9), 1);
    table.difficulty = Difficulty::Skilled;
    table.game = Game::new(1, 2, 1);
    table.start_turn().unwrap();
    table.settle_pending().unwrap();
    assert_eq!(table.ai_turn(), Ok(AiTurn { drawn: 0, played: number(Color::Red, 1) }));
}

#[test]
fn the_mark_stays_until_a_human_player_draws_on_one_card() {
    let hands = vec![vec![number(Color::Green, 5)], vec![number(Color::Red, 1), number(Color::Red, 2)]];
    let mut table = table_of(hands, spare_deck(), number(Color::Red, 9), 2);
    table.uno = true;
    table.start_turn().unwrap();
    table.settle_pending().unwrap();
    assert_eq!(table.draw_card(), Ok(number(Color::Blue, 4)));
    assert!(!table.uno);
    assert_eq!(table.hands[0], vec![number(Color::Green, 5), number(Color::Blue, 4)]);
    assert_eq!(table.phase, Phase::Choosing);

    table.uno = true;
    assert_eq!(table.draw_card(), Ok(number(Color::Blue, 3)));
    assert!(table.uno);
    assert_eq!(
        table.hands[0],
        vec![number(Color::Green, 5), number(Color::Blue, 4), number(Color::Blue, 3)]
    );
}

#[test]
fn an_empty_hand_wins() {
    let hands = vec![vec![number(Color::Red, 5)], vec![number(Color::Red, 1)]];
    let mut table = table_of(hands, spare_deck(), number(Color::Red, 9), 2);
    table.game = Game::new(1, 2, 1);
    table.start_turn().unwrap();
    table.settle_pending().unwrap();
    assert_eq!(table.play_card(1), Ok(number(Color::Red, 1)));
    assert_eq!(table.end_turn(), Ok(TurnEnd { forced: 0, uno: false, winner: Some(2) }));
    assert_eq!(table.phase, Phase::Over);
    assert_eq!(table.game.current_player, 1);
    assert_eq!(table.start_turn(), Err(GameError::WrongPhase));
    assert_eq!(table.settle_pending(), Err(GameError::WrongPhase));
    assert_eq!(table.draw_card(), Err(GameError::WrongPhase));
    assert_eq!(table.show_hand(), Err(GameError::WrongPhase));
    assert_eq!(table.play_card(1), Err(GameError::WrongPhase));
    assert_eq!(table.choose_color(Color::Red), Err(GameError::WrongPhase));
    assert_eq!(table.ai_turn(), Err(GameError::WrongPhase));
    assert_eq!(table.end_turn(), Err(GameError::WrongPhase));
}

#[test]
fn moves_that_are_refused() {
    let hands = vec![
        vec![number(Color::Green, 5), number(Color::Red, 6), action(Color::Blue, SpecialCard::Skip)],
        vec![number(Color::Red, 1)],
    ];
    let mut table = table_of(hands, spare_deck(), number(Color::Red, 9), 2);
    assert_eq!(table.play_card(1), Err(GameError::WrongPhase));
    assert_eq!(table.settle_pending(), Err(GameError::WrongPhase));
    table.start_turn().unwrap();
    assert_eq!(table.start_turn(), Err(GameError::WrongPhase));
    assert_eq!(table.play_card(1), Err(GameError::WrongPhase));
    table.settle_pending().unwrap();
    assert_eq!(table.ai_turn(), Err(GameError::WrongPhase));
    assert_eq!(table.choose_color(Color::Red), Err(GameError::WrongPhase));
    let sorted = vec![number(Color::Red, 6), number(Color::Green, 5), action(Color::Blue, SpecialCard::Skip)];
    assert_eq!(table.hands[0], sorted);
    assert_eq!(table.play_card(0), Err(GameError::NoSuchCard));
    assert_eq!(table.play_card(4), Err(GameError::NotInHand));
    assert_eq!(table.play_card(usize::MAX), Err(GameError::NotInHand));
    assert_eq!(table.play_card(2), Err(GameError::NotAllowed(number(Color::Green, 5))));
    assert_eq!(
        table.play_card(3),
        Err(GameError::NotAllowed(action(Color::Blue, SpecialCard::Skip)))
    );
    assert_eq!(table.hands[0], sorted);
    assert!(table.discard.is_empty());
    assert_eq!(table.phase, Phase::Choosing);
    assert_eq!(table.play_card(1), Ok(number(Color::Red, 6)));
    assert_eq!(table.last_played, number(Color::Red, 6));
    assert_eq!(table.discard, vec![number(Color::Red, 6)]);
    assert_eq!(table.phase, Phase::Closing);
}

#[test]
fn a_card_is_asked_for_by_its_place_in_the_ordered_hand() {
    let hands = vec![vec![number(Color::Red, 5), number(Color::Red, 3)], vec![number(Color::Red, 1)]];
    let mut table = table_of(hands, spare_deck(), number(Color::Red, 9), 2);
    table.start_turn().unwrap();
    table.settle_pending().unwrap();
    table.draw_card().unwrap();
    assert_eq!(
        table.hands[0],
        vec![number(Color::Red, 3), number(Color::Red, 5), number(Color::Blue, 4)]
    );
    table.hands[0] = vec![number(Color::Red, 5), number(Color::Blue, 4), number(Color::Red, 3)];
    assert_eq!(table.show_hand(), Ok(()));
    assert_eq!(
        table.hands[0],
        vec![number(Color::Red, 3), number(Color::Red, 5), number(Color::Blue, 4)]
    );
    table.hands[0] = vec![number(Color::Red, 5), number(Color::Blue, 4), number(Color::Red, 3)];
    assert_eq!(table.play_card(1), Ok(number(Color::Red, 3)));
}

#[test]
fn a_penalty_that_cannot_grow() {
    let hands = vec![
        vec![number(Color::Red, 5), action(Color::Red, SpecialCard::PlusTwo), four()],
        vec![number(Color::Red, 1)],
    ];
    let mut table = table_of(hands, spare_deck(), number(Color::Red, 9), 2);
    table.countercards = true;
    table.phase = Phase::Choosing;
    table.add_queue = u32::MAX - 1;
    assert_eq!(table.play_card(1), Err(GameError::PenaltyOverflow));
    assert_eq!(table.play_card(3), Err(GameError::PenaltyOverflow));
    table.add_queue = u32::MAX - 3;
    assert_eq!(table.play_card(3), Err(GameError::PenaltyOverflow));
    assert_eq!(table.play_card(1), Ok(action(Color::Red, SpecialCard::PlusTwo)));
    assert_eq!(table.add_queue, u32::MAX - 1);
}

#[test]
fn a_computer_player_is_refused_only_the_card_that_does_not_fit() {
    // A number card is played however large the penalty is.
    let hands = vec![vec![number(Color::Red, 5)], vec![number(Color::Red, 1)]];
    let mut table = table_of(hands, spare_deck(), number(Color::Red, 9), 0);
    table.phase = Phase::Choosing;
    table.add_queue = u32::MAX;
    assert_eq!(table.ai_turn(), Ok(AiTurn { drawn: 0, played: number(Color::Red, 5) }));
    assert_eq!(table.add_queue, u32::MAX);

    // A Draw 2 fits where a Draw 4 does not.
    let hands = vec![vec![action(Color::Red, SpecialCard::PlusTwo)], vec![number(Color::Red, 1)]];
    let mut table = table_of(hands, spare_deck(), number(Color::Red, 9), 0);
    table.phase = Phase::Choosing;
    table.add_queue = u32::MAX - 3;
    assert_eq!(
        table.ai_turn(),
        Ok(AiTurn { drawn: 0, played: action(Color::Red, SpecialCard::PlusTwo) })
    );
    assert_eq!(table.add_queue, u32::MAX - 1);

    let hands = vec![vec![four(), number(Color::Green, 3)], vec![number(Color::Red, 1)]];
    let mut table = table_of(hands, spare_deck(), number(Color::Red, 9), 0);
    table.phase = Phase::Choosing;
    table.add_queue = u32::MAX - 3;
    assert_eq!(table.ai_turn(), Err(GameError::PenaltyOverflow));
    assert_eq!(table.hands[0], vec![number(Color::Green, 3), four()]);
    assert!(table.discard.is_empty());
    assert_eq!(table.add_queue, u32::MAX - 3);
    assert_eq!(table.phase, Phase::Choosing);
    assert_eq!(table.last_played, number(Color::Red, 9));
    table.add_queue = u32::MAX - 4;
    assert_eq!(table.ai_turn(), Ok(AiTurn { drawn: 0, played: four() }));
    assert_eq!(table.add_queue, u32::MAX);

    // The cards that were drawn before the refusal stay drawn.
    let hands = vec![vec![number(Color::Green, 3)], vec![number(Color::Red, 1)]];
    let deck = vec![number(Color::Blue, 1), four(), number(Color::Blue, 2)];
    let mut table = table_of(hands, deck, number(Color::Red, 9), 0);
    table.phase = Phase::Choosing;
    table.add_queue = u32::MAX - 1;
    assert_eq!(table.ai_turn(), Err(GameError::PenaltyOverflow));
    assert_eq!(table.hands[0], vec![number(Color::Green, 3), number(Color::Blue, 2), four()]);
    assert_eq!(table.deck, vec![number(Color::Blue, 1)]);
    assert_eq!(table.take_drawn(), vec![plain(number(Color::Blue, 2)), plain(four())]);
    assert!(table.discard.is_empty());
    assert_eq!(table.phase, Phase::Choosing);
}

#[test]
fn a_computer_player_with_level_colours_samples_among_them() {
    for (seed, color) in [(42u64, Color::Red), (1, Color::Blue)] {
        let hands = vec![
            vec![number(Color::Blue, 2), change(), number(Color::Red, 1)],
            vec![number(Color::Green, 2)],
        ];
        let mut table = table_of(hands, spare_deck(), number(Color::Green, 9), 0);
        table.rand = Randler::new(seed);
        table.start_turn().unwrap();
        table.settle_pending().unwrap();
        assert_eq!(table.ai_turn(), Ok(AiTurn { drawn: 0, played: change() }));
        assert_eq!(table.hands[0], vec![number(Color::Red, 1), number(Color::Blue, 2)]);
        assert_eq!(table.last_played, action(color, SpecialCard::ColorChange));
        let mut sampled = Randler::new(seed);
        sampled.rand_range(0, 1);
        let mut rand = table.rand;
        assert_eq!(rand.rand(), sampled.rand());
    }
}

#[test]
fn a_computer_player_draws_until_it_can_play() {
    let hands = vec![vec![number(Color::Green, 1)], vec![number(Color::Green, 2)]];
    let deck = vec![
        number(Color::Blue, 1),
        number(Color::Red, 3),
        number(Color::Yellow, 4),
        number(Color::Blue, 5),
    ];
    let mut table = table_of(hands, deck, number(Color::Red, 9), 0);
    table.start_turn().unwrap();
    assert_eq!(table.settle_pending(), Ok(Pending::Clear));
    assert_eq!(table.draw_card(), Err(GameError::WrongPhase));
    assert_eq!(table.play_card(1), Err(GameError::WrongPhase));
    assert_eq!(table.show_hand(), Err(GameError::WrongPhase));
    assert_eq!(table.ai_turn(), Ok(AiTurn { drawn: 3, played: number(Color::Red, 3) }));
    assert_eq!(
        table.hands[0],
        vec![number(Color::Green, 1), number(Color::Yellow, 4), number(Color::Blue, 5)]
    );
    assert_eq!(table.deck, vec![number(Color::Blue, 1)]);
    assert_eq!(table.discard, vec![number(Color::Red, 3)]);
    assert_eq!(table.last_played, number(Color::Red, 3));
    assert_eq!(table.phase, Phase::Closing);
    assert_eq!(table.end_turn(), Ok(TurnEnd { forced: 0, uno: false, winner: None }));
}

#[test]
fn a_computer_player_colours_its_wild_card() {
    let hands = vec![
        vec![change(), number(Color::Blue, 1), number(Color::Blue, 2), number(Color::Green, 3)],
        vec![number(Color::Green, 2)],
    ];
    let mut table = table_of(hands, spare_deck(), number(Color::Red, 9), 0);
    table.start_turn().unwrap();
    table.settle_pending().unwrap();
    assert_eq!(table.ai_turn(), Ok(AiTurn { drawn: 0, played: change() }));
    assert_eq!(table.last_played, action(Color::Blue, SpecialCard::ColorChange));
    assert_eq!(table.discard, vec![change()]);
    assert_eq!(table.add_queue, 0);
    assert!(!table.skipped);
    assert_eq!(table.phase, Phase::Closing);
    let mut rand = table.rand;
    assert_eq!(rand.rand(), Randler::new(1).rand());
}

#[test]
fn a_computer_player_without_a_leading_colour_samples_one() {
    let hands = vec![vec![four()], vec![number(Color::Green, 2)]];
    let mut table = table_of(hands, spare_deck(), number(Color::Red, 9), 0);
    table.rand = Randler::new(42);
    table.difficulty = Difficulty::Aggressive;
    table.start_turn().unwrap();
    table.settle_pending().unwrap();
    assert_eq!(table.ai_turn(), Ok(AiTurn { drawn: 0, played: four() }));
    assert_eq!(table.last_played, action(Color::Yellow, SpecialCard::PlusFour));
    assert_eq!(table.add_queue, 4);
    assert!(table.skipped);
    assert_eq!(table.end_turn(), Ok(TurnEnd { forced: 0, uno: false, winner: Some(1) }));
}

#[test]
fn drawing_from_an_empty_pile_turns_the_discard_pile_over() {
    let hands = vec![vec![number(Color::Green, 1)], vec![number(Color::Green, 2)]];
    let mut table = table_of(hands, vec![], number(Color::Red, 9), 2);
    table.discard = vec![number(Color::Yellow, 1), action(Color::Red, SpecialCard::ColorChange), number(Color::Red, 9)];
    table.start_turn().unwrap();
    table.settle_pending().unwrap();
    let drawn = table.draw_card().unwrap();
    assert_eq!(table.take_drawn(), vec![Drawn { card: drawn, refill: Refill::TurnedOver }]);
    assert_eq!(table.discard, vec![number(Color::Red, 9)]);
    assert_eq!(table.deck.len(), 1);
    assert_eq!(table.hands[0].len(), 2);
    let mut moved = vec![drawn, table.deck[0]];
    moved.sort();
    assert_eq!(moved, vec![number(Color::Yellow, 1), change()]);
}

#[test]
fn drawing_with_nothing_left_brings_in_a_new_deck() {
    let hands = vec![vec![number(Color::Green, 1)], vec![number(Color::Green, 2)]];
    let mut table = table_of(hands, vec![], number(Color::Red, 9), 2);
    table.discard = vec![number(Color::Red, 9)];
    table.rand = Randler::new(33);
    table.start_turn().unwrap();
    table.settle_pending().unwrap();
    let drawn = table.draw_card().unwrap();
    let mut deck = build_deck();
    shuffle(&mut deck, &mut Randler::new(33));
    assert_eq!(drawn, deck[107]);
    assert_eq!(table.drawn, vec![Drawn { card: drawn, refill: Refill::NewDeck }]);
    assert_eq!(table.draw_card(), Ok(deck[106]));
    assert_eq!(table.take_drawn()[1], plain(deck[106]));
    assert_eq!(table.deck, deck[..106].to_vec());
    assert_eq!(table.discard, vec![number(Color::Red, 9)]);
}

#[test]
fn computer_players_play_a_game_to_the_end() {
    for (seed, difficulty) in [
        (1u64, Difficulty::Calm),
        (2, Difficulty::Aggressive),
        (3, Difficulty::Skilled),
        (4, Difficulty::Calm),
        (5, Difficulty::Aggressive),
        (6, Difficulty::Skilled),
    ] {
        let mut table = Table::deal(0, 4, difficulty, Randler::new(seed)).unwrap();
        let mut turns = 0;
        let winner = loop {
            assert!(table.is_valid());
            assert_eq!((cards_on(&table) + 1) % 108, 0);
            turns += 1;
            assert!(turns < 100_000);
            let seat = table.game.current_player;
            table.take_drawn();
            table.start_turn().unwrap();
            match table.settle_pending().unwrap() {
                Pending::Clear => {
                    let before = table.hands[seat as usize].len();
                    let turn = table.ai_turn().unwrap();
                    assert_eq!(table.hands[seat as usize].len(), before + turn.drawn - 1);
                    assert_eq!(table.drawn.len(), turn.drawn);
                    assert_eq!(table.discard.last().map(|c| (c.special, c.number)),
                        Some((turn.played.special, turn.played.number)));
                    assert_ne!(table.last_played.color, Color::NA);
                },
                Pending::Forced(n) => {
                    assert!(n >= 2 && n % 2 == 0);
                    assert_eq!(table.drawn.len(), n as usize);
                },
                Pending::Skipped => {},
            }
            let end = table.end_turn().unwrap();
            if let Some(winner) = end.winner {
                assert_eq!(winner, seat + 1);
                assert!(table.hands[seat as usize].is_empty());
                break winner;
            }
            assert!(!table.hands[seat as usize].is_empty());
        };
        assert!((1..=4).contains(&winner));
        assert_eq!(table.phase, Phase::Over);
    }
}
