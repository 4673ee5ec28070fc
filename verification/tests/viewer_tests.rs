use bounding_box::viewer::{handle_window_event, KeyAction, ViewerKey, ViewerState};

fn start() -> ViewerState {
    ViewerState { angle_steps: 0, should_close: false }
}

#[test]
fn exit_press_requests_close_and_keeps_the_angle() {
    let mut s = start();
    handle_window_event(&mut s, ViewerKey::Exit, KeyAction::Press);
    assert!(s.should_close);
    assert_eq!(s.angle_steps, 0);
}

#[test]
fn forward_press_and_repeat_each_step_the_angle_up() {
    let mut s = start();
    handle_window_event(&mut s, ViewerKey::Forward, KeyAction::Press);
    assert_eq!(s.angle_steps, 1);
    handle_window_event(&mut s, ViewerKey::Forward, KeyAction::Repeat);
    assert_eq!(s.angle_steps, 2);
    assert!(!s.should_close);
}

#[test]
fn backward_press_and_repeat_each_step_the_angle_down() {
    let mut s = start();
    handle_window_event(&mut s, ViewerKey::Backward, KeyAction::Press);
    assert_eq!(s.angle_steps, -1);
    handle_window_event(&mut s, ViewerKey::Backward, KeyAction::Repeat);
    assert_eq!(s.angle_steps, -2);
    assert!(!s.should_close);
}

#[test]
fn releases_and_other_keys_change_nothing() {
    let mut s = start();
    handle_window_event(&mut s, ViewerKey::Forward, KeyAction::Release);
    handle_window_event(&mut s, ViewerKey::Backward, KeyAction::Release);
    handle_window_event(&mut s, ViewerKey::Exit, KeyAction::Release);
    handle_window_event(&mut s, ViewerKey::Other, KeyAction::Press);
    handle_window_event(&mut s, ViewerKey::Other, KeyAction::Repeat);
    assert_eq!(s, start());
}
