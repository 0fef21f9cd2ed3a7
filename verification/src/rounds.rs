//! Playing a game for a number of fair rounds and then of unfair rounds.

use vstd::prelude::*;

verus! {

/// A game that can be played fairly, one round at a time.
pub trait FairRound: Sized {
    /// The winner of the next fair round.
    spec fn fair_winner(&self) -> u8;

    /// The game after a fair round.
    spec fn after_fair(&self) -> Self;

    /// Plays a fair round and names its winner.
    fn play(&mut self) -> (winner: u8)
        ensures
            winner == old(self).fair_winner(),
            *final(self) == old(self).after_fair(),
    ;
}

/// A game that can be played unfairly, one round at a time.
pub trait UnfairRound: Sized {
    /// The winner of the next unfair round.
    spec fn unfair_winner(&self) -> u8;

    /// The game after an unfair round.
    spec fn after_unfair(&self) -> Self;

    /// Plays an unfair round and names its winner.
    fn play(&mut self) -> (winner: u8)
        ensures
            winner == old(self).unfair_winner(),
            *final(self) == old(self).after_unfair(),
    ;
}

/// A game that can be played both ways.
pub trait Round: FairRound + UnfairRound {

}

/// The game after a number of fair rounds.
pub open spec fn after_fair_rounds<G: Round>(game: G, rounds: nat) -> G
    decreases rounds,
{
    if rounds == 0 {
        game
    } else {
        after_fair_rounds(game, (rounds - 1) as nat).after_fair()
    }
}

/// The game after a number of unfair rounds.
pub open spec fn after_unfair_rounds<G: Round>(game: G, rounds: nat) -> G
    decreases rounds,
{
    if rounds == 0 {
        game
    } else {
        after_unfair_rounds(game, (rounds - 1) as nat).after_unfair()
    }
}

/// The game after the fair rounds and then the unfair rounds.
pub open spec fn after_rounds<G: Round>(game: G, fair_rounds: nat, unfair_rounds: nat) -> G {
    after_unfair_rounds(after_fair_rounds(game, fair_rounds), unfair_rounds)
}

/// The winner of the last round played: of the last unfair round where one
/// is played, else of the last fair round; nobody where no round is played.
pub open spec fn last_winner<G: Round>(game: G, fair_rounds: nat, unfair_rounds: nat) -> Option<u8> {
    if unfair_rounds > 0 {
        Some(
            after_unfair_rounds(
                after_fair_rounds(game, fair_rounds),
                (unfair_rounds - 1) as nat,
            ).unfair_winner(),
        )
    } else if fair_rounds > 0 {
        Some(after_fair_rounds(game, (fair_rounds - 1) as nat).fair_winner())
    } else {
        None
    }
}

/// Plays the fair rounds and then the unfair rounds, and names the winner
/// of the last round; nobody where no round is played.
pub fn play_game<G: Round>(x: &mut G, fair_rounds: usize, unfair_rounds: usize) -> (winner: Option<u8>)
    ensures
        winner == last_winner(*old(x), fair_rounds as nat, unfair_rounds as nat),
        *final(x) == after_rounds(*old(x), fair_rounds as nat, unfair_rounds as nat),
{
    if fair_rounds == 0 && unfair_rounds == 0 {
        return None;
    }
    let mut winner: u8 = 0;
    let mut i: usize = 0;
    while i < fair_rounds
        invariant
            i <= fair_rounds,
            *x == after_fair_rounds(*old(x), i as nat),
            i > 0 ==> winner == after_fair_rounds(*old(x), (i - 1) as nat).fair_winner(),
        decreases fair_rounds - i,
    {
        winner = FairRound::play(x);
        i = i + 1;
    }
    let ghost middle = *x;
    let mut j: usize = 0;
    while j < unfair_rounds
        invariant
            j <= unfair_rounds,
            middle == after_fair_rounds(*old(x), fair_rounds as nat),
            *x == after_unfair_rounds(middle, j as nat),
            j > 0 ==> winner == after_unfair_rounds(middle, (j - 1) as nat).unfair_winner(),
            j == 0 && fair_rounds > 0 ==> winner == after_fair_rounds(
                *old(x),
                (fair_rounds - 1) as nat,
            ).fair_winner(),
        decreases unfair_rounds - j,
    {
        winner = UnfairRound::play(x);
        j = j + 1;
    }
    Some(winner)
}

/// A game of two players in which the fair rounds are won by turns and the
/// unfair rounds always by the first player.
#[derive(Clone, Copy, Debug, PartialEq, Eq, Structural)]
pub struct TurnGame {
    /// Whether the second player wins the next fair round.
    pub second_is_next: bool,
}

impl FairRound for TurnGame {
    open spec fn fair_winner(&self) -> u8 {
        if self.second_is_next {
            2
        } else {
            1
        }
    }

    open spec fn after_fair(&self) -> TurnGame {
        TurnGame { second_is_next: !self.second_is_next }
    }

    fn play(&mut self) -> (winner: u8) {
        let winner: u8 = if self.second_is_next {
            2
        } else {
            1
        };
        self.second_is_next = !self.second_is_next;
        winner
    }
}

impl UnfairRound for TurnGame {
    open spec fn unfair_winner(&self) -> u8 {
        1
    }

    open spec fn after_unfair(&self) -> TurnGame {
        *self
    }

    fn play(&mut self) -> (winner: u8) {
        1
    }
}

impl Round for TurnGame {

}

} // verus!
