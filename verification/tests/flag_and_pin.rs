use coop_blink::flag::{FlagAction, SharedFlag};
use coop_blink::pin::{Level, OutputPin, PinAction};

#[test]
fn flag_starts_set() {
    let flag = SharedFlag::new();
    assert!(flag.read());
}

#[test]
fn toggle_returns_the_new_value() {
    let mut flag = SharedFlag::new();
    assert!(!flag.toggle());
    assert!(!flag.read());
    assert!(flag.toggle());
    assert!(flag.read());
}

#[test]
fn toggling_twice_is_the_identity() {
    let mut flag = SharedFlag::new();
    let first = flag.read();
    flag.toggle();
    flag.toggle();
    assert_eq!(flag.read(), first);
    flag.toggle();
    let second = flag.read();
    flag.toggle();
    flag.toggle();
    assert_eq!(flag.read(), second);
}

#[test]
fn flag_actions() {
    let mut flag = SharedFlag::new();
    flag.apply(FlagAction::Keep);
    assert!(flag.read());
    flag.apply(FlagAction::Toggle);
    assert!(!flag.read());
    flag.apply(FlagAction::Keep);
    assert!(!flag.read());
}

#[test]
fn level_toggles() {
    assert_eq!(Level::Low.toggled(), Level::High);
    assert_eq!(Level::High.toggled(), Level::Low);
    assert_eq!(Level::High.toggled().toggled(), Level::High);
}

#[test]
fn pin_keeps_its_initial_level() {
    assert_eq!(OutputPin::new(Level::Low).level(), Level::Low);
    assert_eq!(OutputPin::new(Level::High).level(), Level::High);
}

#[test]
fn pin_toggle_alternates() {
    let mut pin = OutputPin::new(Level::Low);
    pin.toggle();
    assert_eq!(pin.level(), Level::High);
    pin.toggle();
    assert_eq!(pin.level(), Level::Low);
}

#[test]
fn pin_actions() {
    let mut pin = OutputPin::new(Level::High);
    pin.apply(PinAction::Skip);
    assert_eq!(pin.level(), Level::High);
    pin.apply(PinAction::Toggle);
    assert_eq!(pin.level(), Level::Low);
}
