//! Input events and the interfaces an embedding supplies them through.

use vstd::prelude::*;

verus! {

/// Which physical key an event came from.
#[derive(Debug, Clone, Copy, PartialEq, Eq, Structural)]
pub enum KeyCode {
    Up,
    Middle,
    Down,
}

/// What happened to the key.
#[derive(Debug, Clone, Copy)]
pub enum KeyEvent {
    Clicked,
    DoubleClicked,
    TripleClicked,
    LongPress(core::time::Duration),
}

/// Whether a key is currently held.
#[derive(Debug, Clone, Copy, PartialEq, Eq, Structural)]
pub enum KeyState {
    Pressed,
    Released,
}

/// One input event: a key and what happened to it.
#[derive(Debug, Clone, Copy)]
pub struct InputEvent {
    pub key_code: KeyCode,
    pub key_event: KeyEvent,
}

/// An input source: polled once per frame, hands back a finite (possibly
/// empty) batch of events without blocking. Implemented by the embedding;
/// nothing is promised of what it returns.
pub trait InputInterface {
    fn get_events(&mut self) -> Vec<InputEvent>;

    fn update(&mut self);
}

/// Erases the concrete pin type behind a driver-agnostic level probe.
/// Implemented by the embedding; nothing is promised of a pin's level.
pub trait MyPinWrapper {
    fn is_high_wr(&self) -> bool;

    fn is_low_wr(&self) -> bool;
}

} // verus!
