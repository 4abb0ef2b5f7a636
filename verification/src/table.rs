//! The table: hands, piles and pending penalties of one game.
//!
//! A turn goes through phases. It begins with the hand of the player in turn
//! being put in order; then what is pending is settled, a draw penalty or a
//! skip; a player who is left to choose draws and plays; and the turn ends
//! with a penalty that was left standing being collected, a winner being
//! looked for, and the turn being passed on. This module holds the table and
//! says, on the view of a table, what each of these steps does to it.
//!
//! Every card that is dealt or drawn is put on record, with what was done to
//! the draw pile before it was taken, until the record is taken from the
//! table.

use vstd::prelude::*;
use crate::card::{Color, Difficulty, SpecialCard, UNOCard};
use crate::piles::{ensure_deck_full, refill_of, refilled, Refill};
use crate::error::GameError;
use crate::game::Game;
use crate::hand::{lemma_sorted, sort_hand, sorted};
use crate::prng::Randler;
use crate::rules::{has_counter, is_playable};
use crate::strategy::{ai_move, wild_color, wild_color_state};

verus! {

/// The point that a turn has reached.
#[derive(Debug, Copy, Clone, PartialEq, Eq, Structural)]
pub enum Phase {
    /// Between two turns.
    Idle,
    /// The turn has begun; what is pending has yet to be settled.
    Opened,
    /// The player in turn is to draw or to play.
    Choosing,
    /// A human player has played a wild card and is to name its colour.
    Coloring,
    /// The player in turn has played or sat out; the turn is to be ended.
    Closing,
    /// A player has won.
    Over,
}

/// What the player in turn met at the start of the turn.
#[derive(Debug, Copy, Clone, PartialEq, Eq, Structural)]
pub enum Pending {
    /// A draw penalty of so many cards, which the player has drawn.
    Forced(u32),
    /// A skip, which the player has sat out.
    Skipped,
    /// Nothing: the player is to choose.
    Clear,
}

/// How a turn ended.
#[derive(Debug, Copy, Clone, PartialEq, Eq, Structural)]
pub struct TurnEnd {
    /// How many cards the player drew for a penalty that was still owed.
    pub forced: u32,
    /// Whether the player is down to one card.
    pub uno: bool,
    /// The number of the player who has won, counting from one.
    pub winner: Option<i8>,
}

/// What a computer-controlled player did in its turn.
#[derive(Debug, Copy, Clone, PartialEq, Eq, Structural)]
pub struct AiTurn {
    /// How many cards it drew before it could play.
    pub drawn: usize,
    /// The card that it played, as it left the hand.
    pub played: UNOCard,
}

/// A card that was drawn, and what was done to the draw pile before it
/// was taken.
#[derive(Debug, Copy, Clone, PartialEq, Eq, Structural)]
pub struct Drawn {
    pub card: UNOCard,
    pub refill: Refill,
}

/// One game in progress.
#[derive(Debug)]
pub struct Table {
    /// The hands, by seat. Human players have the first seats.
    pub hands: Vec<Vec<UNOCard>>,
    /// The draw pile; its last card is drawn first.
    pub deck: Vec<UNOCard>,
    /// The discard pile; its last card was played last.
    pub discard: Vec<UNOCard>,
    /// The top card, with the colour chosen for it where it is wild.
    pub last_played: UNOCard,
    pub game: Game,
    /// How many of the seats are held by human players.
    pub players: u8,
    pub difficulty: Difficulty,
    /// The pending draw penalty.
    pub add_queue: u32,
    /// Whether the next player to choose is skipped.
    pub skipped: bool,
    /// Whether a player has been down to one card.
    pub uno: bool,
    /// Whether the player in turn held a counter card when the turn began.
    pub countercards: bool,
    /// Whether the player in turn still owes the pending penalty.
    pub getting_added_to: bool,
    pub phase: Phase,
    pub rand: Randler,
    /// The cards drawn and dealt since this record was last taken, the
    /// oldest first.
    pub drawn: Vec<Drawn>,
}

/// A table as the contracts see it.
pub struct TableView {
    pub hands: Seq<Seq<UNOCard>>,
    pub deck: Seq<UNOCard>,
    pub discard: Seq<UNOCard>,
    pub last_played: UNOCard,
    pub game: Game,
    pub players: u8,
    pub difficulty: Difficulty,
    pub add_queue: u32,
    pub skipped: bool,
    pub uno: bool,
    pub countercards: bool,
    pub getting_added_to: bool,
    pub phase: Phase,
    /// The state of the generator.
    pub state: u64,
    pub drawn: Seq<Drawn>,
}

impl View for Table {
    type V = TableView;

    /// The table with sequences in place of its vectors and the state of
    /// its generator in place of the generator.
    open spec fn view(&self) -> TableView {
        TableView {
            hands: Seq::new(self.hands@.len(), |i: int| self.hands@[i]@),
            deck: self.deck@,
            discard: self.discard@,
            last_played: self.last_played,
            game: self.game,
            players: self.players,
            difficulty: self.difficulty,
            add_queue: self.add_queue,
            skipped: self.skipped,
            uno: self.uno,
            countercards: self.countercards,
            getting_added_to: self.getting_added_to,
            phase: self.phase,
            state: self.rand@,
            drawn: self.drawn@,
        }
    }
}

impl TableView {
    /// The table's invariant: a valid turn counter, and a hand for every
    /// seat.
    pub open spec fn wf(self) -> bool {
        &&& self.game.wf()
        &&& self.hands.len() == self.game.max_players
    }

    /// The seat of the player in turn.
    pub open spec fn seat(self) -> int {
        self.game.current_player as int
    }

    /// The hand of the player in turn.
    pub open spec fn hand(self) -> Seq<UNOCard> {
        self.hands[self.seat()]
    }

    /// Whether the player in turn is computer-controlled.
    pub open spec fn is_ai(self) -> bool {
        self.seat() >= self.players
    }

    /// The table with `hand` as the hand of the player in turn.
    pub open spec fn with_hand(self, hand: Seq<UNOCard>) -> TableView {
        TableView { hands: self.hands.update(self.seat(), hand), ..self }
    }

    /// The table with the hand of the player in turn in order.
    pub open spec fn in_order(self) -> TableView {
        self.with_hand(sorted(self.hand()))
    }

    /// Whether a human player is to draw or to play.
    pub open spec fn human_chooses(self) -> bool {
        self.phase == Phase::Choosing && !self.is_ai()
    }

    /// Whether a computer-controlled player is to draw or to play.
    pub open spec fn ai_chooses(self) -> bool {
        self.phase == Phase::Choosing && self.is_ai()
    }

    /// The table after the player in turn has drawn a card: the draw pile is
    /// refilled where it was empty, its last card goes to the end of the
    /// hand, and the draw is put on record.
    pub open spec fn drew(self) -> TableView {
        let piles = refilled(self.deck, self.discard, self.state);
        TableView {
            hands: self.hands.update(self.seat(), self.hand().push(piles.deck.last())),
            deck: piles.deck.drop_last(),
            discard: piles.discard,
            state: piles.state,
            drawn: self.drawn.push(
                Drawn { card: piles.deck.last(), refill: refill_of(self.deck, self.discard) },
            ),
            ..self
        }
    }

    /// The table after the player in turn has drawn `n` cards.
    pub open spec fn drew_many(self, n: nat) -> TableView
        decreases n,
    {
        if n == 0 {
            self
        } else {
            self.drew().drew_many((n - 1) as nat)
        }
    }

    /// The table after a turn has begun: the hand of the player in turn is
    /// in order, and it is noted whether it holds a counter card.
    pub open spec fn started(self) -> TableView {
        TableView {
            countercards: has_counter(self.hand()),
            getting_added_to: true,
            phase: Phase::Opened,
            ..self.in_order()
        }
    }

    /// What the player in turn meets: a penalty where one is pending and the
    /// player holds no counter card, else a skip where one is pending.
    pub open spec fn pending(self) -> Pending {
        if !self.countercards && self.add_queue > 0 {
            Pending::Forced(self.add_queue)
        } else if self.skipped {
            Pending::Skipped
        } else {
            Pending::Clear
        }
    }

    /// The table after what was pending has been settled. A penalty is drawn
    /// in full; it clears the penalty, and a pending skip with it, and ends
    /// the player's part in the turn. A skip is used up and ends it too.
    pub open spec fn settled(self) -> TableView {
        match self.pending() {
            Pending::Forced(n) => TableView {
                add_queue: 0,
                skipped: false,
                getting_added_to: false,
                phase: Phase::Closing,
                ..self.drew_many(n as nat)
            },
            Pending::Skipped => TableView { skipped: false, phase: Phase::Closing, ..self },
            Pending::Clear => TableView { phase: Phase::Choosing, ..self },
        }
    }

    /// The table after a human player has drawn a card by choice. The hand
    /// is put in order first, and a player who draws while holding a single
    /// card takes back the mark of being down to one card.
    pub open spec fn took_card(self) -> TableView {
        TableView { uno: self.uno && self.in_order().hand().len() != 1, ..self.in_order() }.drew()
    }

    /// What becomes of the table, apart from the cards, when `card` is
    /// played. A Draw 4 adds four to the penalty and skips the next player;
    /// a Draw 2 adds two; a Skip skips the next player; a Reverse turns the
    /// direction of play, or skips the next player at a table of two. The
    /// player who plays a Draw 2 or a Draw 4 owes the penalty no longer. A
    /// wild card waits for its colour.
    pub open spec fn took_effect(self, card: UNOCard) -> TableView {
        match card.special {
            SpecialCard::PlusFour => TableView {
                add_queue: (self.add_queue + 4) as u32,
                getting_added_to: false,
                skipped: true,
                phase: Phase::Coloring,
                ..self
            },
            SpecialCard::PlusTwo => TableView {
                add_queue: (self.add_queue + 2) as u32,
                getting_added_to: false,
                phase: Phase::Closing,
                ..self
            },
            SpecialCard::ColorChange => TableView { phase: Phase::Coloring, ..self },
            SpecialCard::Skip => TableView { skipped: true, phase: Phase::Closing, ..self },
            SpecialCard::Reverse => if self.game.max_players == 2 {
                TableView { skipped: true, phase: Phase::Closing, ..self }
            } else {
                TableView { game: self.game.reversed(), phase: Phase::Closing, ..self }
            },
            SpecialCard::Base => TableView { phase: Phase::Closing, ..self },
        }
    }

    /// The table after the player in turn has played the card at `i` of the
    /// hand: the card leaves the hand for the discard pile, becomes the top
    /// card, and takes effect.
    pub open spec fn played(self, i: int) -> TableView {
        let card = self.hand()[i];
        TableView {
            hands: self.hands.update(self.seat(), self.hand().remove(i)),
            discard: self.discard.push(card),
            last_played: card,
            ..self
        }.took_effect(card)
    }

    /// The table after the top card has been given the colour `color`.
    pub open spec fn colored(self, color: Color) -> TableView {
        TableView {
            last_played: UNOCard {
                color,
                special: self.last_played.special,
                number: self.last_played.number,
            },
            phase: Phase::Closing,
            ..self
        }
    }

    /// The penalty that `card` adds when played.
    pub open spec fn penalty_of(card: UNOCard) -> int {
        match card.special {
            SpecialCard::PlusFour => 4,
            SpecialCard::PlusTwo => 2,
            _ => 0,
        }
    }

    /// What is answered to a human player who asks to play the card with
    /// the number `answer`, counting the cards of the hand from one: the
    /// card, or why it cannot be played.
    pub open spec fn answer_to(self, answer: int) -> Result<UNOCard, GameError> {
        if answer <= 0 {
            Err(GameError::NoSuchCard)
        } else if answer > self.hand().len() {
            Err(GameError::NotInHand)
        } else {
            let card = self.hand()[answer - 1];
            if !is_playable(card, self.last_played) {
                Err(GameError::NotAllowed(card))
            } else if self.overflows(card) {
                Err(GameError::PenaltyOverflow)
            } else {
                Ok(card)
            }
        }
    }

    /// The table after a computer-controlled player has given the wild card
    /// that it played its colour: the most common colour of what is left of
    /// its hand, and of several the one that a sample from the generator
    /// picks.
    pub open spec fn ai_colored(self) -> TableView {
        TableView {
            state: wild_color_state(self.hand(), self.state),
            ..self.colored(wild_color(self.hand(), self.state))
        }
    }

    /// The table after a computer-controlled player has put its hand in
    /// order and drawn a card, `n` times over.
    pub open spec fn ai_drew(self, n: nat) -> TableView
        decreases n,
    {
        if n == 0 {
            self
        } else {
            self.ai_drew((n - 1) as nat).in_order().drew()
        }
    }

    /// The move that a computer-controlled player in turn makes with its
    /// hand in order.
    pub open spec fn ai_choice(self) -> Option<int> {
        ai_move(self.in_order().hand(), self.last_played, self.difficulty, self.uno)
    }

    /// Whether a computer-controlled player in turn finds a card to play
    /// after `n` draws and no sooner.
    pub open spec fn ai_ready(self, n: nat) -> bool {
        &&& forall|k: nat| k < n ==> (#[trigger] self.ai_drew(k)).ai_choice() is None
        &&& self.ai_drew(n).ai_choice() is Some
    }

    /// The card that a computer-controlled player in turn chooses, where it
    /// chooses one.
    pub open spec fn ai_card(self) -> UNOCard {
        self.in_order().hand()[self.ai_choice().unwrap()]
    }

    /// Whether the pending penalty has no room for the penalty of `card`.
    pub open spec fn overflows(self, card: UNOCard) -> bool {
        self.add_queue + Self::penalty_of(card) > u32::MAX
    }

    /// Whether a computer-controlled player in turn finds, after `n` draws
    /// and no sooner, a card for whose penalty the pending penalty has no
    /// room.
    pub open spec fn ai_blocked(self, n: nat) -> bool {
        self.ai_ready(n) && self.ai_drew(n).overflows(self.ai_drew(n).ai_card())
    }

    /// The table after a computer-controlled player has played the card at
    /// `i` of its hand in order, and coloured it where it is wild.
    pub open spec fn ai_played(self, i: int) -> TableView {
        let table = self.in_order().played(i);
        if table.phase == Phase::Coloring {
            table.ai_colored()
        } else {
            table
        }
    }

    /// Whether the player in turn still owes a pending penalty when the
    /// turn ends: one who held a counter card and did not play it.
    pub open spec fn owes(self) -> bool {
        self.getting_added_to && self.countercards && self.add_queue > 0
    }

    /// The table at the end of a turn, before the turn is passed on: a
    /// penalty that is still owed has been drawn.
    pub open spec fn collected(self) -> TableView {
        if self.owes() {
            TableView { add_queue: 0, skipped: false, ..self.drew_many(self.add_queue as nat) }
        } else {
            self
        }
    }

    /// What is said of the end of the turn: how many cards were collected,
    /// whether the player in turn is down to one card, and who has won.
    pub open spec fn turn_end(self) -> TurnEnd {
        let cards = self.collected().hand().len();
        TurnEnd {
            forced: if self.owes() {
                self.add_queue
            } else {
                0
            },
            uno: cards == 1,
            winner: if cards == 0 {
                Some((self.seat() + 1) as i8)
            } else {
                None
            },
        }
    }

    /// The table after the turn has ended. A hand of one card is marked; an
    /// empty hand wins the game; otherwise the turn passes on.
    pub open spec fn ended(self) -> TableView {
        let table = self.collected();
        let cards = table.hand().len();
        if cards == 0 {
            TableView { phase: Phase::Over, ..table }
        } else {
            TableView {
                uno: table.uno || cards == 1,
                game: table.game.advanced(),
                phase: Phase::Idle,
                ..table
            }
        }
    }
}

/// Drawing keeps the table valid and leaves all but the piles, the
/// generator and the hand of the player in turn as they were; that hand
/// grows by the cards drawn.
pub proof fn lemma_drew_many(table: TableView, n: nat)
    requires
        table.wf(),
    ensures
        table.drew_many(n).wf(),
        table.drew_many(n).hand().len() == table.hand().len() + n,
        table.drew_many(n).hands.len() == table.hands.len(),
        forall|i: int|
            0 <= i < table.hands.len() && i != table.seat() ==> #[trigger] table.drew_many(
                n,
            ).hands[i] == table.hands[i],
        table.drew_many(n) == (TableView {
            hands: table.drew_many(n).hands,
            deck: table.drew_many(n).deck,
            discard: table.drew_many(n).discard,
            state: table.drew_many(n).state,
            drawn: table.drew_many(n).drawn,
            ..table
        }),
        table.drew_many(n).drawn.len() == table.drawn.len() + n,
    decreases n,
{
    if n > 0 {
        let next = table.drew();
        lemma_drew_many(next, (n - 1) as nat);
        assert forall|i: int| 0 <= i < table.hands.len() && i != table.seat() implies
            #[trigger] table.drew_many(n).hands[i] == table.hands[i] by {
            assert(next.drew_many((n - 1) as nat).hands[i] == next.hands[i]);
        }
    }
}

/// While a computer-controlled player draws, the table stays valid and
/// nothing changes but the piles, the generator and the player's hand.
pub proof fn lemma_ai_drew(table: TableView, n: nat)
    requires
        table.wf(),
    ensures
        table.ai_drew(n).wf(),
        table.ai_drew(n).hand().len() == table.hand().len() + n,
        table.ai_drew(n) == (TableView {
            hands: table.ai_drew(n).hands,
            deck: table.ai_drew(n).deck,
            discard: table.ai_drew(n).discard,
            state: table.ai_drew(n).state,
            drawn: table.ai_drew(n).drawn,
            ..table
        }),
        table.ai_drew(n).drawn.len() == table.drawn.len() + n,
    decreases n,
{
    if n > 0 {
        let before = table.ai_drew((n - 1) as nat);
        lemma_ai_drew(table, (n - 1) as nat);
        lemma_sorted(before.hand());
    }
}

impl Table {
    /// Whether the table meets its invariant.
    pub fn is_valid(&self) -> (valid: bool)
        ensures
            valid == self@.wf(),
    {
        self.game.is_valid() && self.hands.len() == self.game.max_players as usize
    }

    /// Takes the record of the cards drawn and dealt, and leaves it empty.
    pub fn take_drawn(&mut self) -> (drawn: Vec<Drawn>)
        ensures
            drawn@ == old(self)@.drawn,
            final(self)@ == (TableView { drawn: Seq::empty(), ..old(self)@ }),
    {
        let mut drawn: Vec<Drawn> = Vec::new();
        drawn.append(&mut self.drawn);
        assert(drawn@ =~= old(self)@.drawn);
        drawn
    }

    /// Whether the player in turn is computer-controlled.
    pub fn is_ai_turn(&self) -> (ai: bool)
        ensures
            ai == self@.is_ai(),
    {
        self.game.current_player as i16 >= self.players as i16
    }

    /// Draws one card for the player in turn.
    pub(crate) fn draw_one(&mut self) -> (card: UNOCard)
        requires
            old(self)@.wf(),
        ensures
            final(self)@ == old(self)@.drew(),
            final(self)@.wf(),
            card == final(self)@.hand().last(),
    {
        let refill = ensure_deck_full(&mut self.deck, &mut self.discard, &mut self.rand);
        let card = self.deck.pop().unwrap();
        let seat = self.game.current_player as usize;
        self.hands[seat].push(card);
        self.drawn.push(Drawn { card, refill });
        assert(self@.hands =~= old(self)@.drew().hands);
        card
    }

    /// Draws `n` cards for the player in turn.
    pub(crate) fn draw_many(&mut self, n: u32)
        requires
            old(self)@.wf(),
        ensures
            final(self)@ == old(self)@.drew_many(n as nat),
            final(self)@.wf(),
    {
        let mut k: u32 = 0;
        while k < n
            invariant
                k <= n,
                self@.wf(),
                self@.drew_many((n - k) as nat) == old(self)@.drew_many(n as nat),
            decreases n - k,
        {
            self.draw_one();
            k += 1;
        }
    }

    /// Puts the hand of the player in turn in order.
    pub(crate) fn sort_current(&mut self)
        requires
            old(self)@.wf(),
        ensures
            final(self)@ == old(self)@.in_order(),
            final(self)@.wf(),
    {
        let seat = self.game.current_player as usize;
        sort_hand(&mut self.hands[seat]);
        assert(self@.hands =~= old(self)@.in_order().hands);
    }
}

} // verus!
