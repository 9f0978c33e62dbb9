use photon_engine::input::InputState;

const W: u32 = 17;
const SPACE: u32 = 57;

#[test]
fn new_state_is_idle() {
    let s = InputState::new();
    assert!(!s.is_key_pressed(W));
    assert!(!s.is_key_just_pressed(W));
    assert!(!s.mouse_left_pressed());
    assert!(!s.mouse_left_just_pressed());
}

#[test]
fn press_repeat_release() {
    let mut s = InputState::new();
    s.handle_key_event(W, true);
    assert!(s.is_key_pressed(W));
    assert!(s.is_key_just_pressed(W));
    s.end_frame();
    assert!(s.is_key_pressed(W));
    assert!(!s.is_key_just_pressed(W));
    // Key repeat while held does not count as a new press.
    s.handle_key_event(W, true);
    assert!(!s.is_key_just_pressed(W));
    s.handle_key_event(W, false);
    assert!(!s.is_key_pressed(W));
    assert!(!s.is_key_just_pressed(W));
}

#[test]
fn release_in_same_frame_clears_just_pressed() {
    let mut s = InputState::new();
    s.handle_key_event(SPACE, true);
    s.handle_key_event(SPACE, false);
    assert!(!s.is_key_just_pressed(SPACE));
    s.handle_key_event(W, true);
    assert!(s.is_key_pressed(W) && !s.is_key_pressed(SPACE));
}

#[test]
fn left_mouse_button() {
    let mut s = InputState::new();
    s.handle_mouse_button(false, true);
    assert!(!s.mouse_left_pressed());
    s.handle_mouse_button(true, true);
    assert!(s.mouse_left_pressed() && s.mouse_left_just_pressed());
    s.end_frame();
    assert!(s.mouse_left_pressed() && !s.mouse_left_just_pressed());
    s.handle_mouse_button(true, true);
    assert!(!s.mouse_left_just_pressed());
    s.handle_mouse_button(true, false);
    assert!(!s.mouse_left_pressed());
}
