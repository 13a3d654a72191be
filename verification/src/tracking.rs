//! Hooks through which a search reports its progress, and how it is told to stop.

use vstd::prelude::*;

verus! {

/// Receives the events of a depth-first search over game states.
pub trait SearchStatistics {
    /// A state was reached at the given search depth.
    fn hit_a_state(&mut self, depth: usize);

    /// A state not seen before was reached; it offers `n_moves` moves.
    fn hit_unique_state(&mut self, depth: usize, n_moves: u32);

    /// One of the moves offered at `depth` has been fully explored.
    fn finish_move(&mut self, depth: usize);

    /// A snapshot of the game on every visit: the number of cards on the
    /// foundation stacks and the number of cards still face down.
    /// Ignored unless an implementation overrides it.
    fn hit_game_state(&mut self, stack_len: u8, hidden_down: u8) where Self: Sized
        default_ensures
            *final(self) == *old(self),
    {
    }
}

/// Statistics that record nothing.
pub struct EmptySearchStats;

impl SearchStatistics for EmptySearchStats {
    fn hit_a_state(&mut self, depth: usize)
        ensures
            *final(self) == *old(self),
    {
    }

    fn hit_unique_state(&mut self, depth: usize, n_moves: u32)
        ensures
            *final(self) == *old(self),
    {
    }

    fn finish_move(&mut self, depth: usize)
        ensures
            *final(self) == *old(self),
    {
    }
}

/// Asks a running search to stop.
pub trait TerminateSignal {
    /// Requests termination. Does nothing unless an implementation overrides it.
    fn terminate(&self) {
    }

    /// Whether termination was requested. Never, unless an implementation
    /// overrides it.
    fn is_terminated(&self) -> (terminated: bool)
        default_ensures
            !terminated,
    {
        false
    }
}

/// A signal that is never raised.
pub struct DefaultTerminateSignal;

impl TerminateSignal for DefaultTerminateSignal {}

} // verus!
