//! Playing a turn: the calls that take a table from phase to phase.
//!
//! `start_turn` begins a turn and `settle_pending` settles what is pending.
//! A human player who is left to choose calls `draw_card`, `show_hand` and
//! `play_card`, and `choose_color` after a wild card; a computer-controlled
//! player plays its whole turn in `ai_turn`. `end_turn` ends the turn. A call
//! that does not fit the phase is refused and changes nothing.

use vstd::prelude::*;
use crate::card::{Color, SpecialCard, UNOCard};
use crate::deck::{copies_in_deck, lemma_standard_deck_composition, plain_card};
use crate::error::GameError;
use crate::game::lemma_advance_then_back;
use crate::hand::lemma_sorted;
use crate::piles::{lemma_refilled, refilled};
use crate::rules::{allowed_move, check_countercards};
use crate::strategy::{get_common_color, get_move_ai, lemma_wild_is_played};
use crate::table::{
    lemma_ai_drew, lemma_drew_many, AiTurn, Pending, Phase, Table, TableView, TurnEnd,
};

verus! {

/// Whether some card of `cards` is wild.
pub open spec fn has_wild(cards: Seq<UNOCard>) -> bool {
    exists|i: int| 0 <= i < cards.len() && (#[trigger] cards[i]).is_wild()
}

/// How far the piles are from holding a wild card to draw: not at all where
/// the draw pile holds one; one refill where a new deck comes next; two
/// where the discard pile is turned over first.
pub open spec fn supply_rank(deck: Seq<UNOCard>, discard: Seq<UNOCard>) -> nat {
    if has_wild(deck) {
        0
    } else if discard.len() <= 1 {
        1
    } else {
        2
    }
}

/// Two piles of the same cards hold a wild card or none together.
pub proof fn lemma_has_wild_multiset(a: Seq<UNOCard>, b: Seq<UNOCard>)
    requires
        a.to_multiset() == b.to_multiset(),
        has_wild(a),
    ensures
        has_wild(b),
{
    let i = choose|i: int| 0 <= i < a.len() && (#[trigger] a[i]).is_wild();
    let card = a[i];
    a.to_multiset_ensures();
    b.to_multiset_ensures();
    assert(a.contains(card));
    assert(a.to_multiset().count(card) > 0);
    assert(b.to_multiset().count(card) > 0);
    assert(b.contains(card));
    let k = choose|k: int| 0 <= k < b.len() && b[k] == card;
    assert(b[k].is_wild());
}

/// A player who holds no wild card and draws comes closer to one: the card
/// drawn is wild, or the piles are nearer to a wild card than before, or
/// equally near with a smaller draw pile.
pub proof fn lemma_draw_progress(table: TableView)
    requires
        table.wf(),
    ensures
        has_wild(table.drew().hand()) || supply_rank(table.drew().deck, table.drew().discard)
            < supply_rank(table.deck, table.discard) || (supply_rank(
            table.drew().deck,
            table.drew().discard,
        ) == supply_rank(table.deck, table.discard) && table.drew().deck.len()
            < table.deck.len()),
{
    let piles = refilled(table.deck, table.discard, table.state);
    let after = table.drew();
    let card = piles.deck.last();
    lemma_refilled(table.deck, table.discard, table.state);
    assert(after.hand() == table.hand().push(card));
    if card.is_wild() {
        assert(after.hand()[table.hand().len() as int].is_wild());
    } else if table.deck.len() > 0 {
        if has_wild(table.deck) {
            let i = choose|i: int|
                0 <= i < table.deck.len() && (#[trigger] table.deck[i]).is_wild();
            assert(after.deck[i].is_wild());
        } else {
            assert forall|i: int| 0 <= i < after.deck.len() implies !(
            #[trigger] after.deck[i]).is_wild() by {
                assert(after.deck[i] == table.deck[i]);
            }
        }
    } else if table.discard.len() > 1 {
        assert(after.discard.len() == 1);
    } else {
        let wild = plain_card(Color::NA, SpecialCard::ColorChange);
        lemma_standard_deck_composition(wild);
        assert(copies_in_deck(wild) == 4);
        assert(piles.deck.to_multiset().count(wild) == 4);
        assert(after.deck =~= piles.deck.remove(piles.deck.len() - 1));
        piles.deck.to_multiset_ensures();
        after.deck.to_multiset_ensures();
        assert(after.deck.to_multiset().count(wild) >= 3) by {
            broadcast use vstd::multiset::group_multiset_axioms;

        }
        assert(after.deck.contains(wild));
        let k = choose|k: int| 0 <= k < after.deck.len() && after.deck[k] == wild;
        assert(after.deck[k].is_wild());
    }
}

impl Table {
    /// Begins the turn of the player in turn: puts the hand in order and
    /// notes whether it holds a counter card.
    pub fn start_turn(&mut self) -> (done: Result<(), GameError>)
        requires
            old(self)@.wf(),
        ensures
            final(self)@.wf(),
            match done {
                Ok(_) => old(self)@.phase == Phase::Idle && final(self)@ == old(self)@.started(),
                Err(error) => old(self)@.phase != Phase::Idle && error == GameError::WrongPhase
                    && final(self)@ == old(self)@,
            },
    {
        if self.phase != Phase::Idle {
            return Err(GameError::WrongPhase);
        }
        let seat = self.game.current_player as usize;
        self.countercards = check_countercards(&self.hands[seat]);
        self.sort_current();
        self.getting_added_to = true;
        self.phase = Phase::Opened;
        Ok(())
    }

    /// Settles what is pending for the player in turn, and says what it
    /// was.
    pub fn settle_pending(&mut self) -> (met: Result<Pending, GameError>)
        requires
            old(self)@.wf(),
        ensures
            final(self)@.wf(),
            match met {
                Ok(pending) => old(self)@.phase == Phase::Opened && pending == old(self)@.pending()
                    && final(self)@ == old(self)@.settled(),
                Err(error) => old(self)@.phase != Phase::Opened && error
                    == GameError::WrongPhase && final(self)@ == old(self)@,
            },
    {
        if self.phase != Phase::Opened {
            return Err(GameError::WrongPhase);
        }
        if !self.countercards && self.add_queue > 0 {
            let n = self.add_queue;
            proof {
                lemma_drew_many(self@, n as nat);
            }
            self.draw_many(n);
            self.add_queue = 0;
            self.skipped = false;
            self.getting_added_to = false;
            self.phase = Phase::Closing;
            Ok(Pending::Forced(n))
        } else if self.skipped {
            self.skipped = false;
            self.phase = Phase::Closing;
            Ok(Pending::Skipped)
        } else {
            self.phase = Phase::Choosing;
            Ok(Pending::Clear)
        }
    }

    /// Puts the hand of a human player who is to choose in order, for the
    /// player to see.
    pub fn show_hand(&mut self) -> (done: Result<(), GameError>)
        requires
            old(self)@.wf(),
        ensures
            final(self)@.wf(),
            match done {
                Ok(_) => old(self)@.human_chooses() && final(self)@ == old(self)@.in_order(),
                Err(error) => !old(self)@.human_chooses() && error == GameError::WrongPhase
                    && final(self)@ == old(self)@,
            },
    {
        if self.phase != Phase::Choosing || self.is_ai_turn() {
            return Err(GameError::WrongPhase);
        }
        self.sort_current();
        Ok(())
    }

    /// Draws a card for a human player who chooses to draw, and says which
    /// card it is.
    pub fn draw_card(&mut self) -> (drawn: Result<UNOCard, GameError>)
        requires
            old(self)@.wf(),
        ensures
            final(self)@.wf(),
            match drawn {
                Ok(card) => old(self)@.human_chooses() && final(self)@ == old(self)@.took_card()
                    && card == final(self)@.hand().last(),
                Err(error) => !old(self)@.human_chooses() && error == GameError::WrongPhase
                    && final(self)@ == old(self)@,
            },
    {
        if self.phase != Phase::Choosing || self.is_ai_turn() {
            return Err(GameError::WrongPhase);
        }
        self.sort_current();
        let seat = self.game.current_player as usize;
        if self.hands[seat].len() == 1 && self.uno {
            self.uno = false;
        }
        let card = self.draw_one();
        Ok(card)
    }

    /// Plays the card at `i` of the hand of the player in turn, without a
    /// colour for a wild card.
    fn play_at(&mut self, i: usize) -> (card: UNOCard)
        requires
            old(self)@.wf(),
            i < old(self)@.hand().len(),
            !old(self)@.overflows(old(self)@.hand()[i as int]),
        ensures
            final(self)@ == old(self)@.played(i as int),
            final(self)@.wf(),
            card == old(self)@.hand()[i as int],
    {
        let seat = self.game.current_player as usize;
        let card = self.hands[seat].remove(i);
        self.discard.push(card);
        self.last_played = card;
        assert(self@.hands =~= old(self)@.played(i as int).hands);
        match card.special {
            SpecialCard::PlusFour => {
                self.add_queue += 4;
                self.getting_added_to = false;
                self.skipped = true;
                self.phase = Phase::Coloring;
            },
            SpecialCard::PlusTwo => {
                self.add_queue += 2;
                self.getting_added_to = false;
                self.phase = Phase::Closing;
            },
            SpecialCard::ColorChange => {
                self.phase = Phase::Coloring;
            },
            SpecialCard::Skip => {
                self.skipped = true;
                self.phase = Phase::Closing;
            },
            SpecialCard::Reverse => {
                if self.game.max_players == 2 {
                    self.skipped = true;
                } else {
                    self.game.reverse();
                }
                self.phase = Phase::Closing;
            },
            SpecialCard::Base => {
                self.phase = Phase::Closing;
            },
        }
        card
    }

    /// Plays the card that a human player asks for by its number in the
    /// hand, counted from one in the order of the hand, if it may be
    /// played. The hand is put in order whether the card is played or not.
    pub fn play_card(&mut self, answer: usize) -> (played: Result<UNOCard, GameError>)
        requires
            old(self)@.wf(),
        ensures
            final(self)@.wf(),
            !old(self)@.human_chooses() ==> played == Err::<UNOCard, GameError>(
                GameError::WrongPhase,
            ) && final(self)@ == old(self)@,
            old(self)@.human_chooses() ==> played == old(self)@.in_order().answer_to(
                answer as int,
            ) && final(self)@ == if played is Ok {
                old(self)@.in_order().played(answer - 1)
            } else {
                old(self)@.in_order()
            },
    {
        if self.phase != Phase::Choosing || self.is_ai_turn() {
            return Err(GameError::WrongPhase);
        }
        self.sort_current();
        let seat = self.game.current_player as usize;
        if answer == 0 {
            return Err(GameError::NoSuchCard);
        }
        let i = answer - 1;
        if i >= self.hands[seat].len() {
            return Err(GameError::NotInHand);
        }
        let card = self.hands[seat][i];
        if !allowed_move(card, self.last_played) {
            return Err(GameError::NotAllowed(card));
        }
        if self.has_no_room(card) {
            return Err(GameError::PenaltyOverflow);
        }
        Ok(self.play_at(i))
    }

    /// Gives the wild card that a human player has played its colour, one
    /// of the four.
    pub fn choose_color(&mut self, color: Color) -> (done: Result<(), GameError>)
        requires
            old(self)@.wf(),
        ensures
            final(self)@.wf(),
            match done {
                Ok(_) => old(self)@.phase == Phase::Coloring && color != Color::NA
                    && final(self)@ == old(self)@.colored(color),
                Err(error) => final(self)@ == old(self)@ && if old(self)@.phase
                    != Phase::Coloring {
                    error == GameError::WrongPhase
                } else {
                    color == Color::NA && error == GameError::NoColor
                },
            },
    {
        if self.phase != Phase::Coloring {
            return Err(GameError::WrongPhase);
        }
        if color == Color::NA {
            return Err(GameError::NoColor);
        }
        self.last_played.color = color;
        self.phase = Phase::Closing;
        Ok(())
    }

    /// Plays the card at `i` of the hand of a computer-controlled player,
    /// and gives it a colour where it is wild.
    fn ai_play(&mut self, i: usize) -> (card: UNOCard)
        requires
            old(self)@.wf(),
            i < old(self)@.hand().len(),
            !old(self)@.overflows(old(self)@.hand()[i as int]),
        ensures
            final(self)@ == if old(self)@.played(i as int).phase == Phase::Coloring {
                old(self)@.played(i as int).ai_colored()
            } else {
                old(self)@.played(i as int)
            },
            final(self)@.wf(),
            card == old(self)@.hand()[i as int],
    {
        let seat = self.game.current_player as usize;
        let card = self.play_at(i);
        if self.phase == Phase::Coloring {
            let color = get_common_color(&self.hands[seat], &mut self.rand);
            self.last_played.color = color;
            self.phase = Phase::Closing;
        }
        card
    }

    /// Whether the pending penalty has no room for the penalty of `card`.
    fn has_no_room(&self, card: UNOCard) -> (full: bool)
        ensures
            full == self@.overflows(card),
    {
        match card.special {
            SpecialCard::PlusFour => self.add_queue > u32::MAX - 4,
            SpecialCard::PlusTwo => self.add_queue > u32::MAX - 2,
            _ => false,
        }
    }

    /// Plays the turn of a computer-controlled player who is to choose: it
    /// puts its hand in order and draws until its strategy finds a card,
    /// plays that card, and gives it a colour where it is wild. Says how
    /// many cards it drew and which card it played.
    ///
    /// Where the card that it finds is a Draw 2 or a Draw 4 and the pending
    /// penalty has no room for it, the card is not played: the turn is
    /// refused, with the cards drawn and the hand in order.
    pub fn ai_turn(&mut self) -> (turn: Result<AiTurn, GameError>)
        requires
            old(self)@.wf(),
        ensures
            final(self)@.wf(),
            match turn {
                Ok(done) => {
                    let ready = old(self)@.ai_drew(done.drawn as nat);
                    &&& old(self)@.ai_chooses()
                    &&& old(self)@.ai_ready(done.drawn as nat)
                    &&& done.played == ready.ai_card()
                    &&& !ready.overflows(done.played)
                    &&& final(self)@ == ready.ai_played(ready.ai_choice().unwrap())
                },
                Err(error) => if !old(self)@.ai_chooses() {
                    error == GameError::WrongPhase && final(self)@ == old(self)@
                } else {
                    error == GameError::PenaltyOverflow && exists|n: nat|
                        #[trigger] old(self)@.ai_blocked(n) && final(self)@ == old(
                            self,
                        )@.ai_drew(n).in_order()
                },
            },
    {
        if self.phase != Phase::Choosing || !self.is_ai_turn() {
            return Err(GameError::WrongPhase);
        }
        let seat = self.game.current_player as usize;
        let mut drawn: usize = 0;
        loop
            invariant
                self@.wf(),
                self@ == old(self)@.ai_drew(drawn as nat),
                seat == self@.seat(),
                self@.hand().len() == old(self)@.hand().len() + drawn,
                old(self)@.wf(),
                old(self)@.ai_chooses(),
                forall|k: nat|
                    k < drawn ==> (#[trigger] old(self)@.ai_drew(k)).ai_choice() is None,
            decreases
                    (if has_wild(self@.hand()) {
                        0nat
                    } else {
                        1nat
                    }),
                    supply_rank(self@.deck, self@.discard),
                    self@.deck.len(),
        {
            let ghost before = self@;
            proof {
                lemma_ai_drew(old(self)@, drawn as nat);
                lemma_sorted(before.hand());
            }
            self.sort_current();
            let choice = get_move_ai(
                &self.hands[seat],
                self.last_played,
                self.difficulty,
                self.uno,
            );
            match choice {
                Some(i) => {
                    assert(old(self)@.ai_ready(drawn as nat));
                    if self.has_no_room(self.hands[seat][i]) {
                        assert(old(self)@.ai_blocked(drawn as nat));
                        return Err(GameError::PenaltyOverflow);
                    }
                    let card = self.ai_play(i);
                    return Ok(AiTurn { drawn, played: card });
                },
                None => {
                    proof {
                        if has_wild(before.hand()) {
                            lemma_has_wild_multiset(before.hand(), self@.hand());
                            let hand = self@.hand();
                            let at = choose|at: int|
                                0 <= at < hand.len() && (#[trigger] hand[at]).is_wild();
                            lemma_wild_is_played(
                                hand,
                                self@.last_played,
                                self@.difficulty,
                                self@.uno,
                                at,
                            );
                        }
                        lemma_draw_progress(self@);
                    }
                    self.draw_one();
                    let held = self.hands[seat].len();
                    assert(drawn < held);
                    drawn += 1;
                },
            }
        }
    }

    /// Ends the turn: collects a penalty that is still owed, marks a hand
    /// of one card, and either declares the player in turn the winner or
    /// passes the turn on.
    pub fn end_turn(&mut self) -> (end: Result<TurnEnd, GameError>)
        requires
            old(self)@.wf(),
        ensures
            final(self)@.wf(),
            match end {
                Ok(said) => old(self)@.phase == Phase::Closing && said == old(self)@.turn_end()
                    && final(self)@ == old(self)@.ended(),
                Err(error) => old(self)@.phase != Phase::Closing && error
                    == GameError::WrongPhase && final(self)@ == old(self)@,
            },
    {
        if self.phase != Phase::Closing {
            return Err(GameError::WrongPhase);
        }
        let mut forced: u32 = 0;
        if self.getting_added_to && self.countercards && self.add_queue > 0 {
            forced = self.add_queue;
            proof {
                lemma_drew_many(self@, forced as nat);
            }
            self.draw_many(forced);
            self.add_queue = 0;
            self.skipped = false;
        }
        let seat = self.game.current_player as usize;
        let cards = self.hands[seat].len();
        if cards == 0 {
            self.phase = Phase::Over;
            return Ok(TurnEnd { forced, uno: false, winner: Some(self.game.player_number()) });
        }
        if cards == 1 {
            self.uno = true;
        }
        proof {
            lemma_advance_then_back(self.game);
        }
        self.game.next_turn();
        self.phase = Phase::Idle;
        Ok(TurnEnd { forced, uno: cards == 1, winner: None })
    }
}

} // verus!
