//! The rising-edge latch of the input line.

use vstd::prelude::*;

verus! {

/// The input line as the button task sees it: whether a rising edge has come
/// in since the last wait returned.
///
/// The latch has a single slot. Edges that arrive before the waiting task has
/// been resumed are merged into one.
pub struct EdgeSource {
    pending: bool,
}

impl View for EdgeSource {
    type V = bool;

    closed spec fn view(&self) -> bool {
        self.pending
    }
}

impl EdgeSource {
    /// A line on which no edge has been seen.
    pub fn new() -> (line: EdgeSource)
        ensures
            line@ == false,
    {
        EdgeSource { pending: false }
    }

    /// Records a rising edge. An edge that is already pending absorbs it.
    pub fn signal_rising_edge(&mut self)
        ensures
            final(self)@ == true,
    {
        self.pending = true;
    }

    /// Whether an edge is pending.
    pub fn has_pending(&self) -> (pending: bool)
        ensures
            pending == self@,
    {
        self.pending
    }

    /// The wait for the next rising edge, polled once. If an edge is pending
    /// the wait is over: the call returns `true` and the latch is cleared.
    /// Otherwise the wait goes on.
    pub fn poll_rising_edge(&mut self) -> (edge: bool)
        ensures
            edge == old(self)@,
            final(self)@ == false,
    {
        let edge = self.pending;
        self.pending = false;
        edge
    }
}

} // verus!
