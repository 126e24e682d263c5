//! The blink task: wait for a tick, then toggle the output if the flag is set.

use crate::pin::{Level, PinAction};
use vstd::prelude::*;

verus! {

/// Whether the blink task consults the shared flag.
#[derive(Clone, Copy, PartialEq, Eq, Structural, Debug)]
pub enum BlinkMode {
    /// Toggle on a tick only while the shared flag is set.
    Gated,
    /// Toggle on every tick.
    FreeRunning,
}

/// Where the blink task stands in its loop.
#[derive(Clone, Copy, PartialEq, Eq, Structural, Debug)]
pub enum BlinkState {
    /// Suspended until the ticker's next deadline.
    WaitingForTick,
    /// Resumed by a tick; the body of the loop has not run yet.
    CheckFlagAndMaybeToggle,
}

/// What the blink task does with the output on a tick, given the value it
/// reads from the shared flag.
pub open spec fn decision(mode: BlinkMode, enabled: bool) -> PinAction {
    if mode == BlinkMode::FreeRunning || enabled {
        PinAction::Toggle
    } else {
        PinAction::Skip
    }
}

/// The blink task as a state machine. It never ends: every transition leads
/// to one of its two states.
#[derive(Clone, Copy, PartialEq, Eq, Structural, Debug)]
pub struct BlinkTask {
    pub mode: BlinkMode,
    pub state: BlinkState,
}

impl BlinkTask {
    /// Whether the task is suspended at its wait for the next tick.
    pub open spec fn is_suspended(self) -> bool {
        self.state == BlinkState::WaitingForTick
    }

    /// The task after a tick has resumed it.
    pub open spec fn woken(self) -> BlinkTask {
        BlinkTask { mode: self.mode, state: BlinkState::CheckFlagAndMaybeToggle }
    }

    /// The task after the body of its loop has run with `enabled` read from
    /// the flag, and what the body asks of the output. A task that has not
    /// been resumed stays suspended and asks for nothing.
    pub open spec fn body(self, enabled: bool) -> (BlinkTask, PinAction) {
        if self.is_suspended() {
            (self, PinAction::Skip)
        } else {
            (
                BlinkTask { mode: self.mode, state: BlinkState::WaitingForTick },
                decision(self.mode, enabled),
            )
        }
    }

    /// One whole tick resumption: the task is resumed and runs until it is
    /// suspended again.
    pub open spec fn resumed(self, enabled: bool) -> (BlinkTask, PinAction) {
        self.woken().body(enabled)
    }

    /// A blink task gated by the shared flag, suspended at its first wait.
    pub fn gated() -> (task: BlinkTask)
        ensures
            task == (BlinkTask { mode: BlinkMode::Gated, state: BlinkState::WaitingForTick }),
    {
        BlinkTask { mode: BlinkMode::Gated, state: BlinkState::WaitingForTick }
    }

    /// A blink task that toggles on every tick, suspended at its first wait.
    pub fn free_running() -> (task: BlinkTask)
        ensures
            task == (BlinkTask { mode: BlinkMode::FreeRunning, state: BlinkState::WaitingForTick }),
    {
        BlinkTask { mode: BlinkMode::FreeRunning, state: BlinkState::WaitingForTick }
    }

    /// Whether the task is suspended at its wait for the next tick.
    pub fn is_waiting(&self) -> (waiting: bool)
        ensures
            waiting == self.is_suspended(),
    {
        match self.state {
            BlinkState::WaitingForTick => true,
            BlinkState::CheckFlagAndMaybeToggle => false,
        }
    }

    /// A tick resumes the task.
    pub fn on_tick(&mut self)
        ensures
            *final(self) == old(self).woken(),
    {
        self.state = BlinkState::CheckFlagAndMaybeToggle;
    }

    /// Runs the body of the loop up to the next wait. `enabled` is the value
    /// of the shared flag at this moment.
    pub fn run(&mut self, enabled: bool) -> (action: PinAction)
        ensures
            (*final(self), action) == old(self).body(enabled),
    {
        match self.state {
            BlinkState::WaitingForTick => PinAction::Skip,
            BlinkState::CheckFlagAndMaybeToggle => {
                self.state = BlinkState::WaitingForTick;
                match self.mode {
                    BlinkMode::FreeRunning => PinAction::Toggle,
                    BlinkMode::Gated => if enabled {
                        PinAction::Toggle
                    } else {
                        PinAction::Skip
                    },
                }
            },
        }
    }

    /// One whole tick resumption: the tick resumes the task, the body runs
    /// with `enabled` read from the shared flag, and the task is suspended
    /// again. The result is what the caller has to do to the output.
    pub fn resume(&mut self, enabled: bool) -> (action: PinAction)
        ensures
            (*final(self), action) == old(self).resumed(enabled),
            action == decision(old(self).mode, enabled),
            final(self).is_suspended(),
            final(self).mode == old(self).mode,
    {
        self.on_tick();
        self.run(enabled)
    }
}

/// A blink task and its output after a series of tick resumptions.
pub struct BlinkRun {
    pub task: BlinkTask,
    pub level: Level,
    /// How many times the output has been toggled.
    pub toggles: nat,
}

/// The task and its output after one tick resumption for each element of
/// `flags`, the element being the value of the shared flag at that tick.
pub open spec fn after_ticks(task: BlinkTask, level: Level, flags: Seq<bool>) -> BlinkRun
    decreases flags.len(),
{
    if flags.len() == 0 {
        BlinkRun { task, level, toggles: 0 }
    } else {
        let before = after_ticks(task, level, flags.drop_last());
        let (next, action) = before.task.resumed(flags.last());
        BlinkRun {
            task: next,
            level: action.applied_to(before.level),
            toggles: before.toggles + if action == PinAction::Toggle {
                1nat
            } else {
                0nat
            },
        }
    }
}

/// The output has been flipped once for each toggle, and there is at most one
/// toggle per tick.
pub proof fn lemma_level_follows_toggles(task: BlinkTask, level: Level, flags: Seq<bool>)
    ensures
        after_ticks(task, level, flags).level == level.flipped_times(
            after_ticks(task, level, flags).toggles,
        ),
        after_ticks(task, level, flags).toggles <= flags.len(),
        after_ticks(task, level, flags).task.mode == task.mode,
        flags.len() > 0 ==> after_ticks(task, level, flags).task.is_suspended(),
    decreases flags.len(),
{
    if flags.len() > 0 {
        lemma_level_follows_toggles(task, level, flags.drop_last());
    }
}

/// While the flag reads `true` at every tick, the output toggles exactly once
/// per tick: after any number of ticks there have been as many toggles as
/// ticks. A free-running task does so whatever the flag reads.
pub proof fn lemma_toggles_once_per_tick(task: BlinkTask, level: Level, flags: Seq<bool>)
    requires
        task.mode == BlinkMode::FreeRunning || forall|i: int| 0 <= i < flags.len() ==> flags[i],
    ensures
        after_ticks(task, level, flags).toggles == flags.len(),
        after_ticks(task, level, flags).level == level.flipped_times(flags.len()),
    decreases flags.len(),
{
    lemma_level_follows_toggles(task, level, flags);
    if flags.len() > 0 {
        lemma_toggles_once_per_tick(task, level, flags.drop_last());
        lemma_level_follows_toggles(task, level, flags.drop_last());
    }
}

/// While the flag reads `false` at every tick, a gated task never changes the
/// output.
pub proof fn lemma_never_toggles_while_disabled(task: BlinkTask, level: Level, flags: Seq<bool>)
    requires
        task.mode == BlinkMode::Gated,
        forall|i: int| 0 <= i < flags.len() ==> !flags[i],
    ensures
        after_ticks(task, level, flags).toggles == 0,
        after_ticks(task, level, flags).level == level,
    decreases flags.len(),
{
    if flags.len() > 0 {
        lemma_never_toggles_while_disabled(task, level, flags.drop_last());
        lemma_level_follows_toggles(task, level, flags.drop_last());
    }
}

} // verus!
