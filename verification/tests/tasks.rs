use coop_blink::blink::{BlinkMode, BlinkState, BlinkTask};
use coop_blink::button::{ButtonState, ButtonTask};
use coop_blink::edge::EdgeSource;
use coop_blink::flag::{FlagAction, SharedFlag};
use coop_blink::pin::{Level, OutputPin, PinAction};
use coop_blink::task::Task;
use coop_blink::ticker::Ticker;

#[test]
fn blink_task_starts_waiting() {
    let gated = BlinkTask::gated();
    assert_eq!(gated.mode, BlinkMode::Gated);
    assert_eq!(gated.state, BlinkState::WaitingForTick);
    assert!(gated.is_waiting());
    let free = BlinkTask::free_running();
    assert_eq!(free.mode, BlinkMode::FreeRunning);
    assert_eq!(free.state, BlinkState::WaitingForTick);
}

#[test]
fn blink_task_walks_through_its_states() {
    let mut task = BlinkTask::gated();
    task.on_tick();
    assert_eq!(task.state, BlinkState::CheckFlagAndMaybeToggle);
    assert!(!task.is_waiting());
    assert_eq!(task.run(true), PinAction::Toggle);
    assert_eq!(task.state, BlinkState::WaitingForTick);
}

#[test]
fn blink_task_that_was_not_resumed_does_nothing() {
    let mut task = BlinkTask::gated();
    assert_eq!(task.run(true), PinAction::Skip);
    assert_eq!(task.state, BlinkState::WaitingForTick);
    let mut free = BlinkTask::free_running();
    assert_eq!(free.run(true), PinAction::Skip);
}

#[test]
fn gated_blink_follows_the_flag() {
    let mut task = BlinkTask::gated();
    assert_eq!(task.resume(true), PinAction::Toggle);
    assert_eq!(task.resume(false), PinAction::Skip);
    assert_eq!(task.resume(false), PinAction::Skip);
    assert_eq!(task.resume(true), PinAction::Toggle);
    assert!(task.is_waiting());
    assert_eq!(task.mode, BlinkMode::Gated);
}

#[test]
fn free_running_blink_ignores_the_flag() {
    let mut task = BlinkTask::free_running();
    assert_eq!(task.resume(true), PinAction::Toggle);
    assert_eq!(task.resume(false), PinAction::Toggle);
    assert!(task.is_waiting());
}

#[test]
fn enabled_ticks_toggle_once_each() {
    let mut task = BlinkTask::gated();
    let mut pin = OutputPin::new(Level::Low);
    let mut toggles = 0;
    for tick in 1..=7u32 {
        let action = task.resume(true);
        if action == PinAction::Toggle {
            toggles += 1;
        }
        pin.apply(action);
        assert_eq!(toggles, tick);
        let expected = if tick % 2 == 1 { Level::High } else { Level::Low };
        assert_eq!(pin.level(), expected);
    }
}

#[test]
fn disabled_ticks_never_toggle() {
    let mut task = BlinkTask::gated();
    let mut pin = OutputPin::new(Level::High);
    for _ in 0..7 {
        let action = task.resume(false);
        assert_eq!(action, PinAction::Skip);
        pin.apply(action);
        assert_eq!(pin.level(), Level::High);
    }
}

#[test]
fn button_task_walks_through_its_states() {
    let mut task = ButtonTask::new();
    assert_eq!(task.state, ButtonState::WaitingForEdge);
    assert!(task.is_waiting());
    task.on_edge();
    assert_eq!(task.state, ButtonState::ToggleFlag);
    assert!(!task.is_waiting());
    assert_eq!(task.run(), FlagAction::Toggle);
    assert_eq!(task.state, ButtonState::WaitingForEdge);
}

#[test]
fn button_task_that_was_not_resumed_does_nothing() {
    let mut task = ButtonTask::new();
    assert_eq!(task.run(), FlagAction::Keep);
    assert_eq!(task.state, ButtonState::WaitingForEdge);
}

#[test]
fn every_edge_asks_for_one_flip() {
    let mut task = ButtonTask::new();
    let mut flag = SharedFlag::new();
    for edge in 1..=6u32 {
        let action = task.resume();
        assert_eq!(action, FlagAction::Toggle);
        flag.apply(action);
        assert_eq!(flag.read(), edge % 2 == 0);
        assert!(task.is_waiting());
    }
}

#[test]
fn edge_latch_has_one_slot() {
    let mut line = EdgeSource::new();
    assert!(!line.has_pending());
    assert!(!line.poll_rising_edge());
    line.signal_rising_edge();
    assert!(line.has_pending());
    line.signal_rising_edge();
    line.signal_rising_edge();
    assert!(line.poll_rising_edge());
    assert!(!line.has_pending());
    assert!(!line.poll_rising_edge());
}

#[test]
fn blink_entry_wakes_on_its_deadline_only() {
    let mut task = Task::Blink {
        blink: BlinkTask::gated(),
        ticker: Ticker::every(100, 0),
        led: OutputPin::new(Level::Low),
    };
    assert_eq!(task.next_deadline(), Some(100));
    assert!(!task.is_due(99));
    assert!(!task.wake(99));
    assert!(!task.is_runnable());
    assert!(task.is_due(100));
    assert!(task.wake(100));
    assert!(task.is_runnable());
    // Resumed: it waits for no time now, and a second look does not resume
    // it again.
    assert_eq!(task.next_deadline(), None);
    assert!(!task.is_due(500));
    assert!(!task.wake(500));

    let mut flag = SharedFlag::new();
    assert!(task.run(&mut flag));
    assert!(flag.read());
    assert_eq!(task.led_level(), Some(Level::High));
    assert!(!task.is_runnable());
    assert_eq!(task.next_deadline(), Some(200));
    assert!(!task.run(&mut flag));
    assert_eq!(task.led_level(), Some(Level::High));
}

#[test]
fn blink_entry_has_no_input_line() {
    let mut task = Task::Blink {
        blink: BlinkTask::gated(),
        ticker: Ticker::every(100, 0),
        led: OutputPin::new(Level::Low),
    };
    assert!(!task.signal_rising_edge());
    assert!(!task.is_due(0));
    assert!(task.is_in_range(u64::MAX - 100));
    assert!(!task.is_in_range(u64::MAX - 99));
}

#[test]
fn button_entry_wakes_on_an_edge_only() {
    let mut task = Task::Button { button: ButtonTask::new(), line: EdgeSource::new() };
    let mut flag = SharedFlag::new();
    assert_eq!(task.led_level(), None);
    assert_eq!(task.next_deadline(), None);
    assert!(task.is_in_range(u64::MAX));
    assert!(!task.is_due(u64::MAX));
    assert!(!task.wake(u64::MAX));
    assert!(!task.run(&mut flag));
    assert!(flag.read());

    assert!(task.signal_rising_edge());
    assert!(task.is_due(0));
    assert!(task.wake(0));
    assert!(task.is_runnable());
    assert!(task.run(&mut flag));
    assert!(!flag.read());
    assert!(!task.is_due(0));
    assert!(!task.is_runnable());
}

#[test]
fn edge_during_the_body_is_kept_for_the_next_wait() {
    let mut task = Task::Button { button: ButtonTask::new(), line: EdgeSource::new() };
    let mut flag = SharedFlag::new();
    assert!(task.signal_rising_edge());
    assert!(task.wake(0));
    // The task has been resumed but has not run yet.
    assert!(task.signal_rising_edge());
    assert!(task.run(&mut flag));
    assert!(!flag.read());
    assert!(task.is_due(0));
    assert!(task.wake(0));
    assert!(task.run(&mut flag));
    assert!(flag.read());
}
