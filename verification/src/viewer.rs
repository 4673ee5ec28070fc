//! The keyboard-driven orbit control: the decision logic of the window
//! event handler, kept apart from the windowing layer that feeds it.

use vstd::prelude::*;

verus! {

/// A key the viewer distinguishes. Every other key is `Other`.
#[derive(Clone, Copy, PartialEq, Eq, Structural, Debug)]
pub enum ViewerKey {
    Exit,
    Forward,
    Backward,
    Other,
}

/// What happened to the key.
#[derive(Clone, Copy, PartialEq, Eq, Structural, Debug)]
pub enum KeyAction {
    Press,
    Repeat,
    Release,
}

/// The whole interactive state of the viewer: the orbit angle as a count
/// of fixed steps around the scene, and whether exit was requested.
#[derive(Clone, Copy, PartialEq, Eq, Structural, Debug)]
pub struct ViewerState {
    pub angle_steps: i64,
    pub should_close: bool,
}

/// The state after one event: a press of the exit key requests close; the
/// forward key steps the orbit angle up by one, on initial press and on
/// sustained repeat alike; the backward key steps it down the same way;
/// every other event leaves the state unchanged.
pub open spec fn next_state(s: ViewerState, key: ViewerKey, action: KeyAction) -> ViewerState {
    if key == ViewerKey::Exit && action == KeyAction::Press {
        ViewerState { angle_steps: s.angle_steps, should_close: true }
    } else if key == ViewerKey::Forward && (action == KeyAction::Press || action
        == KeyAction::Repeat) {
        ViewerState { angle_steps: (s.angle_steps + 1) as i64, should_close: s.should_close }
    } else if key == ViewerKey::Backward && (action == KeyAction::Press || action
        == KeyAction::Repeat) {
        ViewerState { angle_steps: (s.angle_steps - 1) as i64, should_close: s.should_close }
    } else {
        s
    }
}

/// Applies one window event to the viewer state, exactly as `next_state`
/// describes it.
pub fn handle_window_event(state: &mut ViewerState, key: ViewerKey, action: KeyAction)
    requires
        key == ViewerKey::Forward && (action == KeyAction::Press || action == KeyAction::Repeat)
            ==> old(state).angle_steps < i64::MAX,
        key == ViewerKey::Backward && (action == KeyAction::Press || action == KeyAction::Repeat)
            ==> old(state).angle_steps > i64::MIN,
    ensures
        *final(state) == next_state(*old(state), key, action),
{
    match (key, action) {
        (ViewerKey::Exit, KeyAction::Press) => {
            state.should_close = true;
        },
        (ViewerKey::Forward, KeyAction::Press) | (ViewerKey::Forward, KeyAction::Repeat) => {
            state.angle_steps = state.angle_steps + 1;
        },
        (ViewerKey::Backward, KeyAction::Press) | (ViewerKey::Backward, KeyAction::Repeat) => {
            state.angle_steps = state.angle_steps - 1;
        },
        _ => {},
    }
}

} // verus!
