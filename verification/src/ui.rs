//! Interpretation of driver input.
//!
//! A windowing driver polls its event queue and hands each event to the
//! functions here as a plain value; they decide what the driver should do:
//! quit, reset the board to a random state, toggle fullscreen, or nothing.
//! Polling itself, and the window, stay with the driver.

use vstd::prelude::*;

verus! {

/// What the simulation loop should do next.
#[derive(Clone, Copy, Debug, PartialEq, Eq, Structural)]
pub enum UIAction {
    Nothing,
    Quit,
    Reset,
}

/// A pressed key, reduced to the keys the simulation reacts to.
#[derive(Clone, Copy, Debug, PartialEq, Eq, Structural)]
pub enum KeyInput {
    Escape,
    Q,
    R,
    F,
    Other,
}

/// A window event, reduced to what the simulation reacts to.
#[derive(Clone, Copy, Debug, PartialEq, Eq, Structural)]
pub enum UIEvent {
    KeyDown(KeyInput),
    Quit,
    Other,
}

/// The action a key press asks for: Escape and Q quit, R resets.
pub open spec fn action_for_key(key: KeyInput) -> UIAction {
    match key {
        KeyInput::Escape => UIAction::Quit,
        KeyInput::Q => UIAction::Quit,
        KeyInput::R => UIAction::Reset,
        _ => UIAction::Nothing,
    }
}

/// Whether a key press asks the driver to toggle fullscreen (the F key).
pub open spec fn key_toggles_fullscreen(key: KeyInput) -> bool {
    key is F
}

/// The action an event asks for: closing the window quits, a key press
/// acts as `action_for_key`, anything else is ignored.
pub open spec fn action_for_event(ev: UIEvent) -> UIAction {
    match ev {
        UIEvent::Quit => UIAction::Quit,
        UIEvent::KeyDown(key) => action_for_key(key),
        UIEvent::Other => UIAction::Nothing,
    }
}

/// Whether an event asks the driver to toggle fullscreen.
pub open spec fn event_toggles_fullscreen(ev: UIEvent) -> bool {
    ev matches UIEvent::KeyDown(key) && key_toggles_fullscreen(key)
}

/// Decide what a key press means: the action to take, and whether the
/// driver should toggle fullscreen.
pub fn interpret_keycode(key: KeyInput) -> (r: (UIAction, bool))
    ensures
        r.0 == action_for_key(key),
        r.1 == key_toggles_fullscreen(key),
{
    match key {
        KeyInput::Escape => (UIAction::Quit, false),
        KeyInput::Q => (UIAction::Quit, false),
        KeyInput::R => (UIAction::Reset, false),
        KeyInput::F => (UIAction::Nothing, true),
        KeyInput::Other => (UIAction::Nothing, false),
    }
}

/// Decide what an event means: the action to take, and whether the driver
/// should toggle fullscreen.
pub fn interpret_event(ev: UIEvent) -> (r: (UIAction, bool))
    ensures
        r.0 == action_for_event(ev),
        r.1 == event_toggles_fullscreen(ev),
{
    match ev {
        UIEvent::Quit => (UIAction::Quit, false),
        UIEvent::KeyDown(key) => interpret_keycode(key),
        UIEvent::Other => (UIAction::Nothing, false),
    }
}

} // verus!
