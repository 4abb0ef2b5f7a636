//! Whose turn it is, and in which direction play goes round the table.

use vstd::prelude::*;
use vstd::arithmetic::div_mod::{
    lemma_mod_add_multiples_vanish, lemma_mod_sub_multiples_vanish, lemma_small_mod,
};

verus! {

/// The seat one step from `seat` in direction `step`, round a table of
/// `seats`.
pub open spec fn next_seat(seat: int, step: int, seats: int) -> int {
    (seat + step) % seats
}

/// One step round the table wraps at most once.
pub proof fn lemma_next_seat(seat: int, step: int, seats: int)
    requires
        0 <= seat < seats,
        step == 1 || step == -1,
    ensures
        next_seat(seat, step, seats) == if seat + step < 0 {
            seat + step + seats
        } else if seat + step >= seats {
            seat + step - seats
        } else {
            seat + step
        },
        0 <= next_seat(seat, step, seats) < seats,
{
    let moved = seat + step;
    if moved < 0 {
        lemma_mod_add_multiples_vanish(moved, seats);
        lemma_small_mod((moved + seats) as nat, seats as nat);
    } else if moved >= seats {
        lemma_mod_sub_multiples_vanish(moved, seats);
        lemma_small_mod((moved - seats) as nat, seats as nat);
    } else {
        lemma_small_mod(moved as nat, seats as nat);
    }
}

/// The turn counter: the seat whose turn it is, the number of seats, and the
/// direction of play, 1 or -1.
#[derive(Debug, Copy, Clone, PartialEq, Eq, Structural)]
pub struct Game {
    pub current_player: i8,
    pub max_players: i8,
    pub direction: i8,
}

impl Game {
    /// The counter's invariant: the seat in turn is one of the seats, and
    /// the direction is a single step either way.
    pub open spec fn wf(self) -> bool {
        &&& 0 <= self.current_player < self.max_players
        &&& self.direction == 1 || self.direction == -1
    }

    /// The counter after the turn has passed to the next seat in the
    /// direction of play, round the table.
    pub open spec fn advanced(self) -> Game {
        Game {
            current_player: next_seat(
                self.current_player as int,
                self.direction as int,
                self.max_players as int,
            ) as i8,
            max_players: self.max_players,
            direction: self.direction,
        }
    }

    /// The counter after the direction of play has turned.
    pub open spec fn reversed(self) -> Game {
        Game {
            current_player: self.current_player,
            max_players: self.max_players,
            direction: (-self.direction) as i8,
        }
    }

    /// The counter with seat `c` in turn at a table of `m` seats, and play
    /// going in direction `d`.
    pub fn new(c: i8, m: i8, d: i8) -> (game: Game)
        ensures
            game == (Game { current_player: c, max_players: m, direction: d }),
    {
        Game { current_player: c, max_players: m, direction: d }
    }

    /// Whether the counter meets its invariant.
    pub fn is_valid(&self) -> (valid: bool)
        ensures
            valid == self.wf(),
    {
        0 <= self.current_player && self.current_player < self.max_players && (self.direction
            == 1 || self.direction == -1)
    }

    /// Passes the turn to the next seat.
    pub fn next_turn(&mut self)
        requires
            old(self).wf(),
        ensures
            *final(self) == old(self).advanced(),
            final(self).wf(),
    {
        let moved: i16 = self.current_player as i16 + self.direction as i16;
        let seats: i16 = self.max_players as i16;
        let wrapped: i16 = if moved < 0 {
            moved + seats
        } else if moved >= seats {
            moved - seats
        } else {
            moved
        };
        proof {
            lemma_next_seat(
                self.current_player as int,
                self.direction as int,
                self.max_players as int,
            );
        }
        self.current_player = wrapped as i8;
    }

    /// Turns the direction of play.
    pub fn reverse(&mut self)
        requires
            old(self).wf(),
        ensures
            *final(self) == old(self).reversed(),
            final(self).wf(),
    {
        self.direction = -self.direction;
    }

    /// The number of the seat in turn, counting from one.
    pub fn player_number(&self) -> (number: i8)
        requires
            self.wf(),
        ensures
            number == self.current_player + 1,
    {
        self.current_player + 1
    }
}

/// Round a table of two, a turn passes to the same seat in either
/// direction.
pub proof fn lemma_two_seats_direction_free(game: Game)
    requires
        game.wf(),
        game.max_players == 2,
    ensures
        game.reversed().advanced().current_player == game.advanced().current_player,
        game.advanced().current_player == 1 - game.current_player,
{
    lemma_next_seat(game.current_player as int, 1, 2);
    lemma_next_seat(game.current_player as int, -1, 2);
}

/// Passing the turn keeps the counter valid, and a step forward followed by
/// a step back returns the turn to the seat it came from.
pub proof fn lemma_advance_then_back(game: Game)
    requires
        game.wf(),
    ensures
        game.advanced().wf(),
        game.reversed().wf(),
        game.advanced().reversed().advanced().current_player == game.current_player,
{
    let seats = game.max_players as int;
    lemma_next_seat(game.current_player as int, game.direction as int, seats);
    lemma_next_seat(game.advanced().current_player as int, -game.direction as int, seats);
}

} // verus!
