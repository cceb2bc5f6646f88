use pengui::events::{EventResponse, InputEvent, Key, MouseButton, PressedState};

#[test]
fn default_state_holds_nothing() {
    let s = PressedState::default();
    assert!(!s.is_button_pressed(MouseButton::Left));
    assert!(!s.is_key_pressed(Key::A));
    assert!(!s.is_mouse_inside());
}

#[test]
fn press_and_release_buttons() {
    let mut s = PressedState::new();
    s.event(&InputEvent::MouseButtonPressed(MouseButton::Left));
    s.event(&InputEvent::MouseButtonPressed(MouseButton::Right));
    s.event(&InputEvent::MouseButtonPressed(MouseButton::Left));
    assert!(s.is_button_pressed(MouseButton::Left));
    assert!(s.is_button_pressed(MouseButton::Right));
    assert!(!s.is_button_pressed(MouseButton::Middle));
    // a button pressed twice is released by a single release
    s.event(&InputEvent::MouseButtonReleased(MouseButton::Left));
    assert!(!s.is_button_pressed(MouseButton::Left));
    assert!(s.is_button_pressed(MouseButton::Right));
    // releasing a button that is not held changes nothing
    s.event(&InputEvent::MouseButtonReleased(MouseButton::Middle));
    assert!(s.is_button_pressed(MouseButton::Right));
}

#[test]
fn press_and_release_keys() {
    let mut s = PressedState::new();
    s.event(&InputEvent::KeyPressed(Key::LShift));
    s.event(&InputEvent::KeyPressed(Key::A));
    assert!(s.is_key_pressed(Key::LShift) && s.is_key_pressed(Key::A));
    s.event(&InputEvent::KeyReleased(Key::LShift));
    assert!(!s.is_key_pressed(Key::LShift));
    assert!(s.is_key_pressed(Key::A));
    assert!(!s.is_button_pressed(MouseButton::Left));
}

#[test]
fn enter_and_leave() {
    let mut s = PressedState::new();
    s.event(&InputEvent::MouseEntered);
    assert!(s.is_mouse_inside());
    s.event(&InputEvent::Character('x'));
    s.event(&InputEvent::FocusForward);
    assert!(s.is_mouse_inside());
    s.event(&InputEvent::MouseLeft);
    assert!(!s.is_mouse_inside());
}

#[test]
fn responses_are_distinct() {
    assert_ne!(EventResponse::Registered, EventResponse::Pass);
    assert_ne!(EventResponse::PassivelyRegistered, EventResponse::Pass);
}
