//! Setting the table: shuffling, dealing seven cards to each seat, and
//! turning over the first top card.

use vstd::prelude::*;
use crate::card::{color_at, color_from_number, Color, Difficulty, UNOCard};
use crate::deck::{build_deck, standard_deck};
use crate::piles::{refresh_deck, Refill};
use crate::error::GameError;
use crate::game::Game;
use crate::prng::{range_state, range_value, Randler};
use crate::shuffle::{lemma_fisher_yates_multiset, shuffle, shuffled, shuffled_state};
use crate::table::{Drawn, Phase, Table, TableView};

verus! {

/// The cards dealt so far, and what is left to deal from.
pub struct Dealing {
    /// The cards dealt, in the order in which they were dealt.
    pub cards: Seq<UNOCard>,
    pub deck: Seq<UNOCard>,
    pub state: u64,
}

/// Dealing `n` cards from `deck`, one by one from its end. Where the deck
/// runs out, a new standard deck is shuffled and dealing goes on from it.
pub open spec fn dealing(deck: Seq<UNOCard>, state: u64, n: nat) -> Dealing
    decreases n,
{
    if n == 0 {
        Dealing { cards: Seq::empty(), deck, state }
    } else {
        let before = dealing(deck, state, (n - 1) as nat);
        if before.deck.len() == 0 {
            let fresh = shuffled(standard_deck(), before.state);
            Dealing {
                cards: before.cards.push(fresh.last()),
                deck: fresh.drop_last(),
                state: shuffled_state(standard_deck(), before.state),
            }
        } else {
            Dealing {
                cards: before.cards.push(before.deck.last()),
                deck: before.deck.drop_last(),
                state: before.state,
            }
        }
    }
}

/// The record of dealing `n` cards from `deck`: each card, and with it
/// whether a new deck was shuffled before it was dealt.
pub open spec fn dealing_record(deck: Seq<UNOCard>, state: u64, n: nat) -> Seq<Drawn> {
    Seq::new(
        n,
        |k: int|
            Drawn {
                card: dealing(deck, state, n).cards[k],
                refill: if dealing(deck, state, k as nat).deck.len() == 0 {
                    Refill::NewDeck
                } else {
                    Refill::Nothing
                },
            },
    )
}

/// The table at the start of a game for `players` human and `ai_players`
/// computer-controlled players, set up with a generator in state `state`;
/// or why there is no game.
///
/// A standard deck is shuffled. Seven cards go to each seat in turn, and the
/// next card is turned over as the top card; it goes to no pile. A top card
/// without a colour is given one of the four, sampled from the generator.
/// The cards dealt to the seats are on record.
pub open spec fn dealt(players: u8, ai_players: u8, difficulty: Difficulty, state: u64)
    -> Result<TableView, GameError> {
    let total = players + ai_players;
    if total == 0 {
        Err(GameError::NoPlayers)
    } else if total > 127 {
        Err(GameError::TooManyPlayers)
    } else {
        let hands = dealing(
            shuffled(standard_deck(), state),
            shuffled_state(standard_deck(), state),
            (7 * total) as nat,
        );
        if hands.deck.len() == 0 {
            Err(GameError::OutOfCards)
        } else {
            let top = hands.deck.last();
            Ok(
                TableView {
                    hands: Seq::new(total as nat, |p: int| hands.cards.subrange(7 * p, 7 * p + 7)),
                    deck: hands.deck.drop_last(),
                    discard: Seq::empty(),
                    last_played: if top.color == Color::NA {
                        UNOCard {
                            color: color_at(range_value(hands.state, 0, 3)),
                            special: top.special,
                            number: top.number,
                        }
                    } else {
                        top
                    },
                    game: Game { current_player: 0, max_players: total as i8, direction: 1 },
                    players,
                    difficulty,
                    add_queue: 0,
                    skipped: false,
                    uno: false,
                    countercards: false,
                    getting_added_to: true,
                    phase: Phase::Idle,
                    state: if top.color == Color::NA {
                        range_state(hands.state, 0, 3)
                    } else {
                        hands.state
                    },
                    drawn: dealing_record(
                        shuffled(standard_deck(), state),
                        shuffled_state(standard_deck(), state),
                        (7 * total) as nat,
                    ),
                },
            )
        }
    }
}

/// How many cards are left to deal from after `n` cards were dealt from a
/// deck of 108.
pub open spec fn left_after(n: nat) -> nat {
    if n == 0 {
        108
    } else {
        (107 - (n - 1) % 108) as nat
    }
}

/// Dealing from a deck of 108 cards hands out as many cards as were asked
/// for, and leaves `left_after` of them.
pub proof fn lemma_dealing(deck: Seq<UNOCard>, state: u64, n: nat)
    requires
        deck.len() == 108,
    ensures
        dealing(deck, state, n).cards.len() == n,
        dealing(deck, state, n).deck.len() == left_after(n),
    decreases n,
{
    if n > 0 {
        let before = dealing(deck, state, (n - 1) as nat);
        lemma_dealing(deck, state, (n - 1) as nat);
        if before.deck.len() == 0 {
            lemma_fisher_yates_multiset(standard_deck(), before.state, 108);
        }
    }
}

/// The cards dealt first stay as they are while more are dealt.
pub proof fn lemma_dealing_prefix(deck: Seq<UNOCard>, state: u64, n: nat, m: nat)
    requires
        deck.len() == 108,
        n <= m,
    ensures
        dealing(deck, state, m).cards.subrange(0, n as int) == dealing(deck, state, n).cards,
    decreases m,
{
    lemma_dealing(deck, state, n);
    lemma_dealing(deck, state, m);
    if n < m {
        lemma_dealing(deck, state, (m - 1) as nat);
        lemma_dealing_prefix(deck, state, n, (m - 1) as nat);
        assert(dealing(deck, state, m).cards.subrange(0, n as int) =~= dealing(
            deck,
            state,
            (m - 1) as nat,
        ).cards.subrange(0, n as int));
    } else {
        assert(dealing(deck, state, m).cards.subrange(0, n as int) =~= dealing(
            deck,
            state,
            n,
        ).cards);
    }
}

/// A game is dealt for every number of players from 1 to 127 but 108, for
/// which the deck is used up as the last hand is dealt. In a game that is
/// dealt every player holds seven cards, the top card has a colour, nothing
/// is pending, nothing has been played, and the first seat is in turn. Up to
/// fifteen players are dealt from one deck, of which all but their cards and
/// the top card is left.
pub proof fn lemma_dealt(players: u8, ai_players: u8, difficulty: Difficulty, state: u64)
    ensures
        match dealt(players, ai_players, difficulty, state) {
            Ok(table) => {
                let total = players + ai_players;
                &&& 0 < total <= 127 && total != 108
                &&& table.wf()
                &&& table.hands.len() == total
                &&& forall|p: int| 0 <= p < total ==> (#[trigger] table.hands[p]).len() == 7
                &&& table.deck.len() == left_after((7 * total) as nat) - 1
                &&& total <= 15 ==> table.deck.len() == 108 - 7 * total - 1
                &&& table.discard.len() == 0
                &&& table.drawn.len() == 7 * total
                &&& table.last_played.color != Color::NA
                &&& table.add_queue == 0 && !table.skipped && !table.uno
                &&& table.seat() == 0 && table.game.direction == 1
                &&& table.phase == Phase::Idle
            },
            Err(error) => error == if players + ai_players == 0 {
                GameError::NoPlayers
            } else if players + ai_players == 108 {
                GameError::OutOfCards
            } else {
                GameError::TooManyPlayers
            } && (players + ai_players == 0 || players + ai_players == 108 || players
                + ai_players > 127),
        },
{
    let total = players + ai_players;
    let fresh = shuffled(standard_deck(), state);
    lemma_fisher_yates_multiset(standard_deck(), state, 108);
    if 0 < total <= 127 {
        lemma_dealing(fresh, shuffled_state(standard_deck(), state), (7 * total) as nat);
    }
}

impl Table {
    /// Sets the table for a game of `players` human and `ai_players`
    /// computer-controlled players, with `rand` as the source of all
    /// chance in it.
    pub fn deal(players: u8, ai_players: u8, difficulty: Difficulty, rand: Randler) -> (table:
        Result<Table, GameError>)
        ensures
            match dealt(players, ai_players, difficulty, rand@) {
                Ok(view) => table is Ok && table->Ok_0@ == view && view.wf(),
                Err(error) => table is Err && table->Err_0 == error,
            },
    {
        let total: u16 = players as u16 + ai_players as u16;
        if total == 0 {
            return Err(GameError::NoPlayers);
        }
        if total > 127 {
            return Err(GameError::TooManyPlayers);
        }
        let mut rand = rand;
        let ghost state = rand@;
        let mut deck = build_deck();
        shuffle(&mut deck, &mut rand);
        let ghost fresh = deck@;
        let ghost first = rand@;
        let mut hands: Vec<Vec<UNOCard>> = Vec::new();
        let mut record: Vec<Drawn> = Vec::new();
        let mut p: u16 = 0;
        assert(record@ =~= dealing_record(fresh, first, 0));
        while p < total
            invariant
                p <= total <= 127,
                fresh.len() == 108,
                hands@.len() == p,
                record@ == dealing_record(fresh, first, (7 * p) as nat),
                deck@ == dealing(fresh, first, (7 * p) as nat).deck,
                rand@ == dealing(fresh, first, (7 * p) as nat).state,
                forall|q: int|
                    0 <= q < p ==> (#[trigger] hands@[q])@ == dealing(
                        fresh,
                        first,
                        (7 * total) as nat,
                    ).cards.subrange(7 * q, 7 * q + 7),
            decreases total - p,
        {
            let mut temp: Vec<UNOCard> = Vec::new();
            let mut k: u16 = 0;
            proof {
                lemma_dealing(fresh, first, (7 * p) as nat);
                assert(temp@ =~= dealing(fresh, first, (7 * p) as nat).cards.subrange(
                    7 * p,
                    7 * p,
                ));
            }
            while k < 7
                invariant
                    k <= 7,
                    p < total <= 127,
                    fresh.len() == 108,
                    deck@ == dealing(fresh, first, (7 * p + k) as nat).deck,
                    rand@ == dealing(fresh, first, (7 * p + k) as nat).state,
                    record@ == dealing_record(fresh, first, (7 * p + k) as nat),
                    temp@ == dealing(fresh, first, (7 * p + k) as nat).cards.subrange(
                        7 * p,
                        7 * p + k,
                    ),
                decreases 7 - k,
            {
                proof {
                    lemma_dealing(fresh, first, (7 * p + k) as nat);
                    lemma_dealing(fresh, first, (7 * p + k + 1) as nat);
                    lemma_dealing_prefix(
                        fresh,
                        first,
                        (7 * p + k) as nat,
                        (7 * p + k + 1) as nat,
                    );
                }
                let refill = if deck.is_empty() {
                    refresh_deck(&mut deck, &mut rand);
                    Refill::NewDeck
                } else {
                    Refill::Nothing
                };
                let card = deck.pop().unwrap();
                temp.push(card);
                record.push(Drawn { card, refill });
                k += 1;
                assert(record@ =~= dealing_record(fresh, first, (7 * p + k) as nat)) by {
                    let now = dealing(fresh, first, (7 * p + k) as nat).cards;
                    let before = dealing(fresh, first, (7 * p + k - 1) as nat).cards;
                    assert forall|j: int| 0 <= j < 7 * p + k - 1 implies now[j] == before[j] by {
                        assert(now.subrange(0, 7 * p + k - 1)[j] == before[j]);
                    }
                }
                assert(temp@ =~= dealing(fresh, first, (7 * p + k) as nat).cards.subrange(
                    7 * p,
                    7 * p + k,
                ));
            }
            proof {
                lemma_dealing(fresh, first, (7 * p + 7) as nat);
                lemma_dealing(fresh, first, (7 * total) as nat);
                lemma_dealing_prefix(fresh, first, (7 * p + 7) as nat, (7 * total) as nat);
                assert(temp@ =~= dealing(fresh, first, (7 * total) as nat).cards.subrange(
                    7 * p,
                    7 * p + 7,
                ));
            }
            hands.push(temp);
            p += 1;
        }
        proof {
            lemma_dealing(fresh, first, (7 * total) as nat);
        }
        let mut last_played = match deck.pop() {
            Some(card) => card,
            None => {
                return Err(GameError::OutOfCards);
            },
        };
        if last_played.color == Color::NA {
            let sample = match rand.rand_range(0, 3) {
                Some(sample) => sample,
                None => 0,
            };
            last_played.color = match color_from_number(sample as u8) {
                Ok(color) => color,
                Err(_) => Color::Red,
            };
        }
        let table = Table {
            hands,
            deck,
            discard: Vec::new(),
            last_played,
            game: Game::new(0, total as i8, 1),
            players,
            difficulty,
            add_queue: 0,
            skipped: false,
            uno: false,
            countercards: false,
            getting_added_to: true,
            phase: Phase::Idle,
            rand,
            drawn: record,
        };
        assert(table@.hands =~= dealt(players, ai_players, difficulty, state)->Ok_0.hands);
        Ok(table)
    }
}

} // verus!
