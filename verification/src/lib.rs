//! A cooperative scheduling core for a blinking output gated by a button.
//!
//! Two tasks share one thread of control. The blink task waits for a periodic
//! tick and toggles an output pin while a shared flag is set; the button task
//! waits for a rising edge on an input line and flips that flag. An executor
//! holds the fixed task table and resumes whichever task has become ready.
//!
//! Time is counted in clock ticks handed in by the caller, so every function
//! here is a deterministic step from the current state and an event to the
//! next state.

pub mod blink;
pub mod button;
pub mod clock;
pub mod edge;
pub mod executor;
pub mod flag;
pub mod laws;
pub mod pin;
pub mod task;
pub mod ticker;
