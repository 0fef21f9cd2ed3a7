//! Rock, paper, scissors between two players who send one byte per round.

use vstd::prelude::*;

verus! {

/// The byte `R`: rock.
pub const ROCK: u8 = 0x52;

/// The byte `P`: paper.
pub const PAPER: u8 = 0x50;

/// The byte `S`: scissors.
pub const SCISSORS: u8 = 0x53;

/// The byte `W`: the player has won the round.
pub const WIN: u8 = 0x57;

/// The byte `L`: the player has lost the round.
pub const LOSS: u8 = 0x4c;

/// The byte `D`: the round is a draw.
pub const DRAW: u8 = 0x44;

/// Whether the byte is a move: `R`, `P` or `S`.
pub open spec fn is_move(c: u8) -> bool {
    c == ROCK || c == PAPER || c == SCISSORS
}

/// Whether move `a` beats move `b`: rock beats scissors, paper beats rock,
/// scissors beat paper.
pub open spec fn beats(a: u8, b: u8) -> bool {
    (a == ROCK && b == SCISSORS) || (a == PAPER && b == ROCK) || (a == SCISSORS && b == PAPER)
}

/// The result of a round: 1 where the first move wins, 2 where the second
/// wins, 3 otherwise.
pub open spec fn winner_of(c1: u8, c2: u8) -> int {
    if beats(c1, c2) {
        1
    } else if beats(c2, c1) {
        2
    } else {
        3
    }
}

/// The letter that tells a player how the round went for a move `own`
/// against `other`: `W`, `L` or `D`.
pub open spec fn verdict(own: u8, other: u8) -> u8 {
    if beats(own, other) {
        WIN
    } else if beats(other, own) {
        LOSS
    } else {
        DRAW
    }
}

/// Where a game stands between two bytes.
#[derive(Clone, Copy, Debug, PartialEq, Eq, Structural)]
pub enum GameState {
    /// The first player's move is awaited.
    AwaitFirst,
    /// The first player has moved; the second player's move is awaited.
    AwaitSecond { first: u8 },
    /// The game is over.
    Stopped,
}

/// What is sent after a round: to each player the other's move and the
/// player's own verdict.
#[derive(Clone, Copy, Debug)]
pub struct Replies {
    pub to_first: (u8, u8),
    pub to_second: (u8, u8),
}

/// The state after a read: `None` stands for a failed read. A byte that is
/// no move, or a failed read, ends the game.
pub open spec fn next_state(state: GameState, read: Option<u8>) -> GameState {
    match (state, read) {
        (GameState::AwaitFirst, Some(c)) => if is_move(c) {
            GameState::AwaitSecond { first: c }
        } else {
            GameState::Stopped
        },
        (GameState::AwaitSecond { first }, Some(c)) => if is_move(c) {
            GameState::AwaitFirst
        } else {
            GameState::Stopped
        },
        _ => GameState::Stopped,
    }
}

/// What is sent after a read: something only when the second move of a
/// round has come in.
pub open spec fn replies_of(state: GameState, read: Option<u8>) -> Option<Replies> {
    match (state, read) {
        (GameState::AwaitSecond { first }, Some(c)) => if is_move(c) {
            Some(
                Replies { to_first: (c, verdict(first, c)), to_second: (first, verdict(c, first)) },
            )
        } else {
            None
        },
        _ => None,
    }
}

fn move_byte(c: u8) -> (b: bool)
    ensures
        b == is_move(c),
{
    c == ROCK || c == PAPER || c == SCISSORS
}

/// The result of a round: 1 where the first move wins, 2 where the second
/// wins, 3 otherwise.
pub fn determine_winner(c1: u8, c2: u8) -> (result: i32)
    ensures
        result == winner_of(c1, c2),
{
    if (c1 == ROCK && c2 == SCISSORS) || (c1 == PAPER && c2 == ROCK) || (c1 == SCISSORS && c2 == PAPER) {
        return 1;
    }
    if (c2 == ROCK && c1 == SCISSORS) || (c2 == PAPER && c1 == ROCK) || (c2 == SCISSORS && c1 == PAPER) {
        return 2;
    }
    3
}

/// One step of a game: takes what was read from the player whose turn it
/// is, and gives the next state and what is to be sent.
pub fn handle_game(state: GameState, read: Option<u8>) -> (step: (GameState, Option<Replies>))
    ensures
        step.0 == next_state(state, read),
        step.1 == replies_of(state, read),
{
    match state {
        GameState::AwaitFirst => match read {
            Some(c) => {
                if move_byte(c) {
                    (GameState::AwaitSecond { first: c }, None)
                } else {
                    (GameState::Stopped, None)
                }
            },
            None => (GameState::Stopped, None),
        },
        GameState::AwaitSecond { first } => match read {
            Some(c) => {
                if move_byte(c) {
                    let res = determine_winner(first, c);
                    let replies = if res == 1 {
                        Replies { to_first: (c, WIN), to_second: (first, LOSS) }
                    } else if res == 2 {
                        Replies { to_first: (c, LOSS), to_second: (first, WIN) }
                    } else {
                        Replies { to_first: (c, DRAW), to_second: (first, DRAW) }
                    };
                    (GameState::AwaitFirst, Some(replies))
                } else {
                    (GameState::Stopped, None)
                }
            },
            None => (GameState::Stopped, None),
        },
        GameState::Stopped => (GameState::Stopped, None),
    }
}

/// No round has two winners, and a round between equal moves has none.
pub proof fn law_rounds_are_fair(c1: u8, c2: u8)
    ensures
        !(beats(c1, c2) && beats(c2, c1)),
        winner_of(c1, c2) == 1 <==> winner_of(c2, c1) == 2,
        c1 == c2 ==> winner_of(c1, c2) == 3,
        is_move(c1) && is_move(c2) && c1 != c2 ==> winner_of(c1, c2) != 3,
{
}

} // verus!
