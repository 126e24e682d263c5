//! The shared enable flag.

use vstd::prelude::*;

verus! {

/// The value of the flag at startup: the output blinks until the button says
/// otherwise.
pub const STARTUP_VALUE: bool = true;

/// What a single flip makes of a flag value.
pub open spec fn flipped(value: bool) -> bool {
    !value
}

/// What a task asks of the shared flag when it has been resumed.
#[derive(Clone, Copy, PartialEq, Eq, Structural, Debug)]
pub enum FlagAction {
    /// Leave the flag as it is.
    Keep,
    /// Flip the flag.
    Toggle,
}

impl FlagAction {
    /// The value that this action makes of `value`.
    pub open spec fn applied_to(self, value: bool) -> bool {
        match self {
            FlagAction::Keep => value,
            FlagAction::Toggle => flipped(value),
        }
    }
}

/// The one boolean that couples the two tasks: read by the blink task,
/// flipped by the button task.
///
/// A flip needs a unique borrow and a read a shared one, so neither can be
/// observed halfway through the other.
pub struct SharedFlag {
    active: bool,
}

impl View for SharedFlag {
    type V = bool;

    closed spec fn view(&self) -> bool {
        self.active
    }
}

impl SharedFlag {
    /// The flag as it is at startup: set.
    pub fn new() -> (flag: SharedFlag)
        ensures
            flag@ == STARTUP_VALUE,
            flag@ == true,
    {
        SharedFlag { active: STARTUP_VALUE }
    }

    /// The current value.
    pub fn read(&self) -> (value: bool)
        ensures
            value == self@,
    {
        self.active
    }

    /// Flips the stored value and returns the value now stored.
    pub fn toggle(&mut self) -> (value: bool)
        ensures
            final(self)@ == flipped(old(self)@),
            value == final(self)@,
    {
        self.active = !self.active;
        self.active
    }

    /// Carries out `action` on the flag.
    pub fn apply(&mut self, action: FlagAction)
        ensures
            final(self)@ == action.applied_to(old(self)@),
    {
        match action {
            FlagAction::Keep => {},
            FlagAction::Toggle => {
                self.toggle();
            },
        }
    }
}

/// Flipping twice in a row gives the first value back.
pub proof fn lemma_flip_involution(value: bool)
    ensures
        flipped(flipped(value)) == value,
{
}

} // verus!
