//! What holds of the turn protocol: penalties, skips, the mark of the
//! last card, and the number of cards in play.

use vstd::prelude::*;
use crate::card::{SpecialCard, UNOCard};
use crate::piles::{lemma_refilled, refilled};
use crate::game::{lemma_advance_then_back, lemma_two_seats_direction_free};
use crate::hand::{lemma_sorted, sorted};
use crate::rules::has_counter;
use crate::table::{lemma_drew_many, Pending, Phase, TableView};

verus! {

/// A penalty that meets a player without a counter card is drawn in full,
/// and that is the player's whole turn: the hand grows by the penalty, the
/// penalty and any skip are cleared, no card is played, and nothing is left
/// to collect when the turn ends.
pub proof fn lemma_penalty_is_drawn(table: TableView)
    requires
        table.wf(),
        table.add_queue > 0,
        !table.countercards,
    ensures
        table.pending() == Pending::Forced(table.add_queue),
        table.settled().hand().len() == table.hand().len() + table.add_queue,
        table.settled().add_queue == 0,
        !table.settled().skipped,
        table.settled().phase == Phase::Closing,
        table.settled().last_played == table.last_played,
        table.settled().collected() == table.settled(),
{
    lemma_drew_many(table, table.add_queue as nat);
}

/// A Draw 2 played when nothing is pending costs a next player without a
/// counter card exactly two cards and the turn.
pub proof fn lemma_draw_two_costs_two(table: TableView, i: int)
    requires
        table.wf(),
        table.add_queue == 0,
        0 <= i < table.hand().len(),
        table.hand().len() >= 2,
        table.hand()[i].special == SpecialCard::PlusTwo,
        !has_counter(table.played(i).ended().hand()),
    ensures
        ({
            let next = table.played(i).ended();
            &&& next.phase == Phase::Idle
            &&& next.add_queue == 2
            &&& next.started().pending() == Pending::Forced(2)
            &&& next.started().settled().hand().len() == next.hand().len() + 2
            &&& next.started().settled().add_queue == 0
            &&& next.started().settled().phase == Phase::Closing
            &&& next.started().settled().last_played == table.hand()[i]
        }),
{
    let next = table.played(i).ended();
    lemma_advance_then_back(table.game);
    lemma_sorted(next.hand());
    lemma_penalty_is_drawn(next.started());
}

/// At a table of two a Reverse does what a Skip does.
pub proof fn lemma_reverse_is_skip_for_two(table: TableView, reverse: UNOCard, skip: UNOCard)
    requires
        table.game.max_players == 2,
        reverse.special == SpecialCard::Reverse,
        skip.special == SpecialCard::Skip,
    ensures
        table.took_effect(reverse) == table.took_effect(skip),
{
}

/// At a table of two, a player who plays a Reverse or a Skip while nothing
/// is pending takes the next turn but one: the other player sits out, and
/// the turn comes back with the direction of play as it was.
pub proof fn lemma_turn_returns_at_two(table: TableView, i: int)
    requires
        table.wf(),
        table.game.max_players == 2,
        table.add_queue == 0,
        0 <= i < table.hand().len(),
        table.hand().len() >= 2,
        table.hand()[i].special == SpecialCard::Reverse || table.hand()[i].special
            == SpecialCard::Skip,
        table.hands[1 - table.seat()].len() > 0,
    ensures
        ({
            let other = table.played(i).ended();
            let back = other.started().settled().ended();
            &&& other.seat() == 1 - table.seat()
            &&& other.started().pending() == Pending::Skipped
            &&& back.seat() == table.seat()
            &&& back.phase == Phase::Idle
            &&& back.game == table.game
            &&& !back.skipped
            &&& back.hands[other.seat()] == sorted(table.hands[other.seat()])
        }),
{
    let other = table.played(i).ended();
    lemma_two_seats_direction_free(table.game);
    lemma_advance_then_back(table.game);
    lemma_sorted(other.hand());
    let sat = other.started().settled();
    lemma_two_seats_direction_free(sat.game);
    lemma_advance_then_back(sat.game);
}

/// A player who ends a turn with one card is marked as down to one card,
/// and the mark stays.
pub proof fn lemma_one_card_is_marked(table: TableView)
    requires
        table.wf(),
    ensures
        table.collected().hand().len() == 1 ==> table.ended().uno,
        table.uno ==> table.ended().uno,
        table.collected().hand().len() == 0 <==> table.ended().phase == Phase::Over,
{
    lemma_drew_many(table, table.add_queue as nat);
}

/// How many cards the hands hold together.
pub open spec fn cards_in_hands(hands: Seq<Seq<UNOCard>>) -> nat
    decreases hands.len(),
{
    if hands.len() == 0 {
        0
    } else {
        cards_in_hands(hands.drop_last()) + hands.last().len()
    }
}

/// How many cards the piles and the hands hold together.
pub open spec fn cards_on_table(table: TableView) -> nat {
    table.deck.len() + table.discard.len() + cards_in_hands(table.hands)
}

/// A hand that changes changes the number of cards in the hands by as much
/// as its own.
proof fn lemma_cards_in_hands_update(hands: Seq<Seq<UNOCard>>, seat: int, hand: Seq<UNOCard>)
    requires
        0 <= seat < hands.len(),
    ensures
        cards_in_hands(hands.update(seat, hand)) + hands[seat].len() == cards_in_hands(hands)
            + hand.len(),
    decreases hands.len(),
{
    let changed = hands.update(seat, hand);
    if seat == hands.len() - 1 {
        assert(changed.drop_last() =~= hands.drop_last());
    } else {
        lemma_cards_in_hands_update(hands.drop_last(), seat, hand);
        assert(changed.drop_last() =~= hands.drop_last().update(seat, hand));
    }
}

/// No card is lost and none is made in play: a card that is played moves
/// from a hand to the discard pile, and a card that is drawn moves from the
/// draw pile to a hand. Cards are added only where a new deck of 108 is
/// brought in, because the draw pile is empty and the discard pile holds one
/// card or none.
pub proof fn lemma_cards_are_kept(table: TableView, i: int)
    requires
        table.wf(),
    ensures
        0 <= i < table.hand().len() ==> cards_on_table(table.played(i)) == cards_on_table(
            table,
        ),
        cards_on_table(table.with_hand(sorted(table.hand()))) == cards_on_table(table),
        cards_on_table(table.drew()) == cards_on_table(table) + if table.deck.len() == 0
            && table.discard.len() <= 1 {
            108nat
        } else {
            0nat
        },
{
    let seat = table.seat();
    lemma_sorted(table.hand());
    lemma_cards_in_hands_update(table.hands, seat, sorted(table.hand()));
    if 0 <= i < table.hand().len() {
        lemma_cards_in_hands_update(table.hands, seat, table.hand().remove(i));
    }
    lemma_refilled(table.deck, table.discard, table.state);
    let piles = refilled(table.deck, table.discard, table.state);
    lemma_cards_in_hands_update(table.hands, seat, table.hand().push(piles.deck.last()));
}

} // verus!
