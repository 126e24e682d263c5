//! The button task: wait for a rising edge, then flip the shared flag.

use crate::flag::{flipped, FlagAction};
use vstd::prelude::*;

verus! {

/// Where the button task stands in its loop.
#[derive(Clone, Copy, PartialEq, Eq, Structural, Debug)]
pub enum ButtonState {
    /// Suspended until the next rising edge.
    WaitingForEdge,
    /// Resumed by an edge; the flag has not been flipped yet.
    ToggleFlag,
}

/// The button task as a state machine. It never ends and never touches the
/// output.
#[derive(Clone, Copy, PartialEq, Eq, Structural, Debug)]
pub struct ButtonTask {
    pub state: ButtonState,
}

impl ButtonTask {
    /// Whether the task is suspended at its wait for the next edge.
    pub open spec fn is_suspended(self) -> bool {
        self.state == ButtonState::WaitingForEdge
    }

    /// The task after an edge has resumed it.
    pub open spec fn woken(self) -> ButtonTask {
        ButtonTask { state: ButtonState::ToggleFlag }
    }

    /// The task after the body of its loop has run, and what the body asks of
    /// the shared flag. A task that has not been resumed stays suspended and
    /// asks for nothing.
    pub open spec fn body(self) -> (ButtonTask, FlagAction) {
        if self.is_suspended() {
            (self, FlagAction::Keep)
        } else {
            (ButtonTask { state: ButtonState::WaitingForEdge }, FlagAction::Toggle)
        }
    }

    /// One whole edge resumption: the task is resumed and runs until it is
    /// suspended again.
    pub open spec fn resumed(self) -> (ButtonTask, FlagAction) {
        self.woken().body()
    }

    /// A button task suspended at its first wait.
    pub fn new() -> (task: ButtonTask)
        ensures
            task == (ButtonTask { state: ButtonState::WaitingForEdge }),
    {
        ButtonTask { state: ButtonState::WaitingForEdge }
    }

    /// Whether the task is suspended at its wait for the next edge.
    pub fn is_waiting(&self) -> (waiting: bool)
        ensures
            waiting == self.is_suspended(),
    {
        match self.state {
            ButtonState::WaitingForEdge => true,
            ButtonState::ToggleFlag => false,
        }
    }

    /// A rising edge resumes the task.
    pub fn on_edge(&mut self)
        ensures
            *final(self) == old(self).woken(),
    {
        self.state = ButtonState::ToggleFlag;
    }

    /// Runs the body of the loop up to the next wait.
    pub fn run(&mut self) -> (action: FlagAction)
        ensures
            (*final(self), action) == old(self).body(),
    {
        match self.state {
            ButtonState::WaitingForEdge => FlagAction::Keep,
            ButtonState::ToggleFlag => {
                self.state = ButtonState::WaitingForEdge;
                FlagAction::Toggle
            },
        }
    }

    /// One whole edge resumption: the edge resumes the task, the body runs,
    /// and the task is suspended again. The result is always exactly one flip
    /// of the shared flag.
    pub fn resume(&mut self) -> (action: FlagAction)
        ensures
            (*final(self), action) == old(self).resumed(),
            action == FlagAction::Toggle,
            final(self).is_suspended(),
    {
        self.on_edge();
        self.run()
    }
}

/// The value of the flag after `edges` edge resumptions of the button task,
/// each of which carries out what the task asks for.
pub open spec fn flag_after_edges(task: ButtonTask, value: bool, edges: nat) -> bool
    decreases edges,
{
    if edges == 0 {
        value
    } else {
        task.resumed().1.applied_to(flag_after_edges(task, value, (edges - 1) as nat))
    }
}

/// Each edge resumption flips the flag exactly once, so the flag has its
/// first value after an even number of edges and the opposite one after an
/// odd number. Two edges in a row give the first value back.
pub proof fn lemma_edges_flip_flag(task: ButtonTask, value: bool, edges: nat)
    ensures
        flag_after_edges(task, value, edges) == if edges % 2 == 0 {
            value
        } else {
            flipped(value)
        },
        flag_after_edges(task, value, edges + 1) == flipped(flag_after_edges(task, value, edges)),
        flag_after_edges(task, value, 2) == value,
    decreases edges,
{
    if edges > 0 {
        lemma_edges_flip_flag(task, value, (edges - 1) as nat);
    }
    reveal_with_fuel(flag_after_edges, 3);
}

} // verus!
