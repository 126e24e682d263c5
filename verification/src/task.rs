//! A task together with the resources it owns, as the executor holds it.

use crate::blink::BlinkTask;
use crate::button::ButtonTask;
use crate::edge::EdgeSource;
use crate::flag::SharedFlag;
use crate::pin::{Level, OutputPin};
use crate::ticker::{Ticker, TickerView};
use vstd::prelude::*;

verus! {

/// A task and its resources as plain values.
pub enum TaskView {
    /// The blink task with its ticker and the level of its output.
    Blink { blink: BlinkTask, ticker: TickerView, led: Level },
    /// The button task and whether a rising edge is pending on its line.
    Button { button: ButtonTask, edge_pending: bool },
}

impl TaskView {
    /// The ticker of a blink task has a period of at least one clock tick.
    pub open spec fn wf(self) -> bool {
        match self {
            TaskView::Blink { ticker, .. } => ticker.wf(),
            TaskView::Button { .. } => true,
        }
    }

    /// Whether `now` is a time at which the task can be looked at: the
    /// ticker of a blink task can be polled then.
    pub open spec fn in_range(self, now: nat) -> bool {
        match self {
            TaskView::Blink { ticker, .. } => ticker.in_range(now),
            TaskView::Button { .. } => true,
        }
    }

    /// Whether the task is suspended at its wait.
    pub open spec fn is_suspended(self) -> bool {
        match self {
            TaskView::Blink { blink, .. } => blink.is_suspended(),
            TaskView::Button { button, .. } => button.is_suspended(),
        }
    }

    /// Whether the task has been resumed and has not yet run up to its next
    /// wait.
    pub open spec fn runnable(self) -> bool {
        !self.is_suspended()
    }

    /// Whether the task is suspended and what it waits for has happened at
    /// `now`: the deadline has been reached, or an edge is pending.
    pub open spec fn due(self, now: nat) -> bool {
        match self {
            TaskView::Blink { blink, ticker, .. } => blink.is_suspended() && ticker.due(now),
            TaskView::Button { button, edge_pending } => button.is_suspended() && edge_pending,
        }
    }

    /// Whether a scheduling pass at `now` has anything to do for the task:
    /// it is due, or it has been resumed before and has not run yet.
    pub open spec fn ready(self, now: nat) -> bool {
        self.due(now) || self.runnable()
    }

    /// The task after the executor has looked at it at `now`. A task that is
    /// due is resumed, which uses up the tick or the edge that resumed it.
    /// Any other task is left alone.
    pub open spec fn woken(self, now: nat) -> TaskView {
        if self.due(now) {
            match self {
                TaskView::Blink { blink, ticker, led } => TaskView::Blink {
                    blink: blink.woken(),
                    ticker: ticker.fired(),
                    led,
                },
                TaskView::Button { button, edge_pending } => TaskView::Button {
                    button: button.woken(),
                    edge_pending: false,
                },
            }
        } else {
            self
        }
    }

    /// The task and the shared flag after the task has run up to its next
    /// wait, the flag having the value `flag` before. The blink task reads
    /// the flag and acts on its own output; the button task acts on the flag.
    /// A suspended task does nothing.
    pub open spec fn ran(self, flag: bool) -> (TaskView, bool) {
        match self {
            TaskView::Blink { blink, ticker, led } => {
                let (next, action) = blink.body(flag);
                (TaskView::Blink { blink: next, ticker, led: action.applied_to(led) }, flag)
            },
            TaskView::Button { button, edge_pending } => {
                let (next, action) = button.body();
                (TaskView::Button { button: next, edge_pending }, action.applied_to(flag))
            },
        }
    }

    /// The task after a rising edge on the input line. The edge is latched
    /// for the button task, where an edge that is already pending absorbs it.
    /// A blink task has no input line.
    pub open spec fn edge_signalled(self) -> TaskView {
        match self {
            TaskView::Blink { .. } => self,
            TaskView::Button { button, .. } => TaskView::Button { button, edge_pending: true },
        }
    }

    /// The time that the task waits for, if it waits for a time: the
    /// deadline of a suspended blink task.
    pub open spec fn deadline(self) -> Option<nat> {
        match self {
            TaskView::Blink { blink, ticker, .. } => if blink.is_suspended() {
                Some(ticker.deadline)
            } else {
                None
            },
            TaskView::Button { .. } => None,
        }
    }

    /// A bound on the work that the task still has to do at `now`.
    pub open spec fn backlog(self, now: nat) -> nat {
        let running: nat = if self.runnable() {
            1
        } else {
            0
        };
        match self {
            TaskView::Blink { ticker, .. } => running + ticker.backlog(now),
            TaskView::Button { edge_pending, .. } => running + if edge_pending {
                1nat
            } else {
                0nat
            },
        }
    }
}

/// An entry of the task table: a task and the resources that it alone owns.
pub enum Task {
    /// The blink task with its ticker and its output pin.
    Blink { blink: BlinkTask, ticker: Ticker, led: OutputPin },
    /// The button task with the edge latch of its input line.
    Button { button: ButtonTask, line: EdgeSource },
}

impl View for Task {
    type V = TaskView;

    open spec fn view(&self) -> TaskView {
        match self {
            Task::Blink { blink, ticker, led } => TaskView::Blink {
                blink: *blink,
                ticker: ticker@,
                led: led@,
            },
            Task::Button { button, line } => TaskView::Button {
                button: *button,
                edge_pending: line@,
            },
        }
    }
}

impl Task {
    /// Whether `now` is a time at which the task can be looked at.
    pub fn is_in_range(&self, now: u64) -> (ok: bool)
        ensures
            ok == self@.in_range(now as nat),
    {
        match self {
            Task::Blink { ticker, .. } => ticker.is_in_range(now),
            Task::Button { .. } => true,
        }
    }

    /// Whether the task has been resumed and has not yet run up to its next
    /// wait.
    pub fn is_runnable(&self) -> (runnable: bool)
        ensures
            runnable == self@.runnable(),
    {
        match self {
            Task::Blink { blink, .. } => !blink.is_waiting(),
            Task::Button { button, .. } => !button.is_waiting(),
        }
    }

    /// Whether the task is suspended and what it waits for has happened at
    /// `now`.
    pub fn is_due(&self, now: u64) -> (due: bool)
        ensures
            due == self@.due(now as nat),
    {
        match self {
            Task::Blink { blink, ticker, .. } => blink.is_waiting() && ticker.is_due(now),
            Task::Button { button, line } => button.is_waiting() && line.has_pending(),
        }
    }

    /// Resumes the task if it is due at `now`, and says whether it did.
    pub fn wake(&mut self, now: u64) -> (woke: bool)
        requires
            old(self)@.in_range(now as nat),
        ensures
            woke == old(self)@.due(now as nat),
            final(self)@ == old(self)@.woken(now as nat),
    {
        match self {
            Task::Blink { blink, ticker, .. } => {
                if blink.is_waiting() && ticker.is_due(now) {
                    ticker.poll_next(now);
                    blink.on_tick();
                    true
                } else {
                    false
                }
            },
            Task::Button { button, line } => {
                if button.is_waiting() && line.has_pending() {
                    line.poll_rising_edge();
                    button.on_edge();
                    true
                } else {
                    false
                }
            },
        }
    }

    /// Runs the task up to its next wait if it has been resumed, and says
    /// whether it ran.
    pub fn run(&mut self, flag: &mut SharedFlag) -> (ran: bool)
        ensures
            ran == old(self)@.runnable(),
            (final(self)@, final(flag)@) == old(self)@.ran(old(flag)@),
    {
        match self {
            Task::Blink { blink, led, .. } => {
                let ran = !blink.is_waiting();
                let action = blink.run(flag.read());
                led.apply(action);
                ran
            },
            Task::Button { button, .. } => {
                let ran = !button.is_waiting();
                let action = button.run();
                flag.apply(action);
                ran
            },
        }
    }

    /// A rising edge on the task's input line. Returns whether the task has
    /// such a line.
    pub fn signal_rising_edge(&mut self) -> (accepted: bool)
        ensures
            accepted == (old(self)@ is Button),
            final(self)@ == old(self)@.edge_signalled(),
    {
        match self {
            Task::Blink { .. } => false,
            Task::Button { line, .. } => {
                line.signal_rising_edge();
                true
            },
        }
    }

    /// The time that the task waits for, if it waits for a time.
    pub fn next_deadline(&self) -> (deadline: Option<u64>)
        ensures
            deadline.is_some() == self@.deadline().is_some(),
            deadline.is_some() ==> deadline.unwrap() == self@.deadline().unwrap(),
    {
        match self {
            Task::Blink { blink, ticker, .. } => if blink.is_waiting() {
                Some(ticker.next_deadline())
            } else {
                None
            },
            Task::Button { .. } => None,
        }
    }

    /// The level of the task's output, if it has one.
    pub fn led_level(&self) -> (level: Option<Level>)
        ensures
            level == match self@ {
                TaskView::Blink { led, .. } => Some(led),
                TaskView::Button { .. } => None,
            },
    {
        match self {
            Task::Blink { led, .. } => Some(led.level()),
            Task::Button { .. } => None,
        }
    }
}

/// Resuming a task and running it up to its next wait leaves it suspended
/// with less work to do than before.
pub proof fn lemma_step_reduces_backlog(task: TaskView, flag: bool, now: nat)
    requires
        task.wf(),
    ensures
        task.woken(now).ran(flag).0.wf(),
        task.woken(now).ran(flag).0.in_range(now) == task.in_range(now),
        task.woken(now).ran(flag).0.is_suspended(),
        task.woken(now).ran(flag).0.backlog(now) <= task.backlog(now),
        task.ready(now) ==> task.woken(now).ran(flag).0.backlog(now) < task.backlog(now),
{
}

} // verus!
