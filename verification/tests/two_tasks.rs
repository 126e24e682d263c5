use coop_blink::blink::BlinkTask;
use coop_blink::button::ButtonTask;
use coop_blink::clock::led_period;
use coop_blink::edge::EdgeSource;
use coop_blink::executor::Executor;
use coop_blink::pin::{Level, OutputPin};
use coop_blink::task::Task;
use coop_blink::ticker::Ticker;

const BUTTON: usize = 0;
const BLINK: usize = 1;

/// The two-task system: the button task first, then the gated blink task
/// with its output at `initial`, both registered at time zero.
fn system(initial: Level) -> Executor {
    let mut executor = Executor::new(2);
    let button = Task::Button { button: ButtonTask::new(), line: EdgeSource::new() };
    let blink = Task::Blink {
        blink: BlinkTask::gated(),
        ticker: Ticker::every(led_period(), 0),
        led: OutputPin::new(initial),
    };
    assert_eq!(executor.spawn(button), Ok(BUTTON));
    assert_eq!(executor.spawn(blink), Ok(BLINK));
    executor
}

fn led(executor: &Executor) -> Level {
    executor.task(BLINK).unwrap().led_level().unwrap()
}

#[test]
fn five_ticks_with_flag_set_toggle_five_times() {
    let mut executor = system(Level::Low);
    assert!(executor.flag());
    let period = led_period();
    let mut seen_at_tick = Vec::new();
    let mut seen_after_tick = Vec::new();
    let mut toggles = 0;
    for tick in 1..=5u64 {
        let before = led(&executor);
        seen_at_tick.push(before);
        assert_eq!(executor.poll(tick * period), 1);
        let after = led(&executor);
        seen_after_tick.push(after);
        if after != before {
            toggles += 1;
        }
    }
    assert_eq!(toggles, 5);
    assert_eq!(seen_at_tick, vec![Level::Low, Level::High, Level::Low, Level::High, Level::Low]);
    assert_eq!(
        seen_after_tick,
        vec![Level::High, Level::Low, Level::High, Level::Low, Level::High]
    );
    assert!(executor.flag());
}

#[test]
fn five_ticks_from_high_end_low() {
    let mut executor = system(Level::High);
    let period = led_period();
    let mut seen = Vec::new();
    for tick in 1..=5u64 {
        executor.poll(tick * period);
        seen.push(led(&executor));
    }
    assert_eq!(seen, vec![Level::Low, Level::High, Level::Low, Level::High, Level::Low]);
}

#[test]
fn edge_between_second_and_third_tick_stops_the_blinking() {
    let mut executor = system(Level::Low);
    let period = led_period();

    assert_eq!(executor.poll(period), 1);
    assert_eq!(led(&executor), Level::High);
    assert_eq!(executor.poll(2 * period), 1);
    assert_eq!(led(&executor), Level::Low);

    assert!(executor.signal_rising_edge(BUTTON));
    assert_eq!(executor.poll(2 * period + period / 2), 1);
    assert!(!executor.flag());
    assert_eq!(led(&executor), Level::Low);

    for tick in 3..=5u64 {
        // The blink task is still resumed by its tick; it just leaves the
        // output alone.
        assert_eq!(executor.poll(tick * period), 1);
        assert_eq!(led(&executor), Level::Low);
        assert!(!executor.flag());
    }
}

#[test]
fn edge_and_tick_in_one_pass_run_in_table_order() {
    let mut executor = system(Level::Low);
    let period = led_period();
    assert!(executor.signal_rising_edge(BUTTON));
    // Both tasks are ready. The button task was registered first, so the
    // blink task already reads the flipped flag.
    assert_eq!(executor.poll(period), 2);
    assert!(!executor.flag());
    assert_eq!(led(&executor), Level::Low);
}

#[test]
fn two_rapid_edges_are_merged_into_one_resumption() {
    let mut executor = system(Level::Low);
    assert!(executor.signal_rising_edge(BUTTON));
    assert!(executor.signal_rising_edge(BUTTON));
    // One resumption of the button task, one flip.
    assert_eq!(executor.poll(1), 1);
    assert!(!executor.flag());
    // Nothing is left of the second edge.
    assert!(executor.is_idle(1));
    assert_eq!(executor.poll(2), 0);
    assert!(!executor.flag());
}

#[test]
fn two_separate_edges_restore_the_flag() {
    let mut executor = system(Level::Low);
    assert!(executor.signal_rising_edge(BUTTON));
    assert_eq!(executor.poll(1), 1);
    assert!(!executor.flag());
    assert!(executor.signal_rising_edge(BUTTON));
    assert_eq!(executor.poll(2), 1);
    assert!(executor.flag());
}

#[test]
fn idle_executor_resumes_nothing_until_an_event() {
    let mut executor = system(Level::High);
    let period = led_period();
    assert_eq!(executor.next_deadline(), Some(period));
    for now in [0, 1, period / 2, period - 1] {
        assert!(executor.is_idle(now));
        assert_eq!(executor.poll(now), 0);
        assert!(executor.flag());
        assert_eq!(led(&executor), Level::High);
        assert_eq!(executor.next_deadline(), Some(period));
        assert!(!executor.task(BUTTON).unwrap().is_runnable());
        assert!(!executor.task(BLINK).unwrap().is_runnable());
    }
    // The deadline is the first of the two events that ends the idling.
    assert!(!executor.is_idle(period));
    assert_eq!(executor.poll(period), 1);
    assert_eq!(led(&executor), Level::Low);
    // An edge is the other.
    assert!(executor.is_idle(period + 1));
    assert!(executor.signal_rising_edge(BUTTON));
    assert!(!executor.is_idle(period + 1));
}

#[test]
fn edge_flips_once_whatever_the_ticks_do() {
    let period = led_period();
    for late_by in [0u64, 1, 3, 10] {
        let mut executor = system(Level::Low);
        assert!(executor.signal_rising_edge(BUTTON));
        let now = late_by * period;
        executor.run_until_idle(now);
        assert!(!executor.flag());
        executor.run_until_idle(now + 5 * period);
        assert!(!executor.flag());
    }
}
