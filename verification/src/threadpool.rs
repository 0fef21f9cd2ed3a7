//! What a thread pool sends to its workers, and whose turn it is when two
//! threads take the items of one list by turns.

use vstd::prelude::*;

verus! {

/// A message to a worker: a job to run, or the order to stop.
pub enum Message<Job> {
    NewJob(Job),
    Terminate,
}

impl<Job> Message<Job> {
    /// The job that the message carries, if it carries one.
    pub fn into_job(self) -> (job: Option<Job>)
        ensures
            job == match self {
                Message::NewJob(j) => Some(j),
                Message::Terminate => None,
            },
    {
        match self {
            Message::NewJob(j) => Some(j),
            Message::Terminate => None,
        }
    }
}

/// What a thread that takes turns does next.
#[derive(Clone, Copy, Debug, PartialEq, Eq, Structural)]
pub enum Turn {
    /// Stop: the list has ended, or enough items were taken.
    Stop,
    /// Wait: it is the other thread's turn.
    Wait,
    /// Take the next item.
    Take,
}

/// What the thread of the given parity does when `count` items were taken:
/// it stops where the list has ended or `max_iterations` items were taken,
/// takes an item where the count has its parity, and waits otherwise.
pub open spec fn turn_of(odd: bool, count: nat, max_iterations: nat, ended: bool) -> Turn {
    if ended || count >= max_iterations {
        Turn::Stop
    } else if (count % 2 != 0) == odd {
        Turn::Take
    } else {
        Turn::Wait
    }
}

/// What the thread of the given parity does next.
pub fn next_turn(odd: bool, count: usize, max_iterations: usize, ended: bool) -> (turn: Turn)
    ensures
        turn == turn_of(odd, count as nat, max_iterations as nat, ended),
{
    if ended || count >= max_iterations {
        Turn::Stop
    } else if (count % 2 != 0) == odd {
        Turn::Take
    } else {
        Turn::Wait
    }
}

/// At every count exactly one of the two threads takes an item, until both
/// stop together; the even thread takes the first item.
pub proof fn law_threads_take_turns(count: nat, max_iterations: nat, ended: bool)
    ensures
        turn_of(true, count, max_iterations, ended) == Turn::Stop <==> turn_of(
            false,
            count,
            max_iterations,
            ended,
        ) == Turn::Stop,
        turn_of(true, count, max_iterations, ended) == Turn::Take <==> turn_of(
            false,
            count,
            max_iterations,
            ended,
        ) == Turn::Wait,
        turn_of(false, count, max_iterations, ended) == Turn::Take ==> turn_of(
            true,
            count + 1,
            max_iterations,
            false,
        ) != Turn::Wait,
        max_iterations > 0 ==> turn_of(false, 0, max_iterations, false) == Turn::Take,
{
}

} // verus!
