//! Waiting for a reply, for a limited number of rounds.

use vstd::prelude::*;

verus! {

/// The rounds that are left.
#[derive(Clone, Copy, Debug, PartialEq, Eq, Structural)]
pub struct Rounds {
    pub left: u32,
}

/// Whether to go on waiting.
#[derive(Debug, PartialEq, Eq)]
pub enum Wait<T> {
    Again,
    /// The waiting is over, with a result or without one.
    Finished(Option<T>),
}

/// What a round makes of the reply it brought, if any: the first reply ends
/// the waiting, and so does the last round.
pub open spec fn after_round<T>(left: int, reply: Option<Option<T>>) -> Wait<T> {
    match reply {
        Some(result) => Wait::Finished(result),
        None => if left <= 1 {
            Wait::Finished(None)
        } else {
            Wait::Again
        },
    }
}

/// Where the waiting stands after the rounds that brought `replies`, when
/// `left` rounds were left before them.
pub open spec fn after_rounds<T>(left: int, replies: Seq<Option<Option<T>>>) -> Wait<T>
    decreases replies.len(),
{
    if replies.len() == 0 {
        Wait::Again
    } else {
        match after_round(left, replies[0]) {
            Wait::Finished(result) => Wait::Finished(result),
            Wait::Again => after_rounds(left - 1, replies.skip(1)),
        }
    }
}

impl Rounds {
    /// `count` rounds.
    pub fn new(count: u32) -> (rounds: Rounds)
        ensures
            rounds.left == count,
    {
        Rounds { left: count }
    }

    /// Ends a round that brought a reply or none.
    pub fn settle<T>(&mut self, reply: Option<Option<T>>) -> (wait: Wait<T>)
        requires
            old(self).left > 0,
        ensures
            final(self).left == old(self).left - 1,
            wait == after_round(old(self).left as int, reply),
    {
        self.left = self.left - 1;
        match reply {
            Some(result) => Wait::Finished(result),
            None => if self.left == 0 {
                Wait::Finished(None)
            } else {
                Wait::Again
            },
        }
    }
}

} // verus!
