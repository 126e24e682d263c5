//! The output line and its logical level.

use vstd::prelude::*;

verus! {

/// Logical level of a digital line.
#[derive(Clone, Copy, PartialEq, Eq, Structural, Debug)]
pub enum Level {
    Low,
    High,
}

impl Level {
    /// The opposite level.
    pub open spec fn flipped(self) -> Level {
        match self {
            Level::Low => Level::High,
            Level::High => Level::Low,
        }
    }

    /// The level after `n` flips.
    pub open spec fn flipped_times(self, n: nat) -> Level {
        if n % 2 == 0 {
            self
        } else {
            self.flipped()
        }
    }

    /// The opposite level.
    pub fn toggled(self) -> (level: Level)
        ensures
            level == self.flipped(),
    {
        match self {
            Level::Low => Level::High,
            Level::High => Level::Low,
        }
    }
}

/// What a task asks of the output pin when it has been resumed.
#[derive(Clone, Copy, PartialEq, Eq, Structural, Debug)]
pub enum PinAction {
    /// Leave the line as it is.
    Skip,
    /// Flip the line.
    Toggle,
}

impl PinAction {
    /// The level that this action makes of `level`.
    pub open spec fn applied_to(self, level: Level) -> Level {
        match self {
            PinAction::Skip => level,
            PinAction::Toggle => level.flipped(),
        }
    }
}

/// An output line. Its view is the level it drives.
pub struct OutputPin {
    level: Level,
}

impl View for OutputPin {
    type V = Level;

    closed spec fn view(&self) -> Level {
        self.level
    }
}

impl OutputPin {
    /// A line driven at `initial`.
    pub fn new(initial: Level) -> (pin: OutputPin)
        ensures
            pin@ == initial,
    {
        OutputPin { level: initial }
    }

    /// The level the line is driven at.
    pub fn level(&self) -> (level: Level)
        ensures
            level == self@,
    {
        self.level
    }

    /// Flips the line.
    pub fn toggle(&mut self)
        ensures
            final(self)@ == old(self)@.flipped(),
    {
        self.level = self.level.toggled();
    }

    /// Carries out `action` on the line.
    pub fn apply(&mut self, action: PinAction)
        ensures
            final(self)@ == action.applied_to(old(self)@),
    {
        match action {
            PinAction::Skip => {},
            PinAction::Toggle => self.toggle(),
        }
    }
}

} // verus!
