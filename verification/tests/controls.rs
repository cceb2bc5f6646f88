use pengui::controls::{CheckState, ClickState};
use pengui::events::{EventResponse, InputEvent, MouseButton};
use pengui::global_container::{ContainedWidget, GlobalContainer};

#[test]
fn click_is_reported_once() {
    let mut b = ClickState::new();
    assert!(!b.take_pressed());
    assert_eq!(
        b.send_event(&InputEvent::MouseButtonPressed(MouseButton::Left)),
        EventResponse::Registered
    );
    assert_eq!(b.send_event(&InputEvent::MouseEntered), EventResponse::Pass);
    assert!(b.take_pressed());
    assert!(!b.take_pressed());
}

#[test]
fn other_buttons_do_not_click() {
    let mut b = ClickState::new();
    assert_eq!(
        b.send_event(&InputEvent::MouseButtonPressed(MouseButton::Right)),
        EventResponse::Pass
    );
    assert_eq!(
        b.send_event(&InputEvent::MouseButtonReleased(MouseButton::Left)),
        EventResponse::Pass
    );
    assert!(!b.take_pressed());
}

#[test]
fn check_box_toggles() {
    let mut c = CheckState::new();
    assert!(!c.checked());
    let click = InputEvent::MouseButtonPressed(MouseButton::Left);
    assert_eq!(c.send_event(&click), EventResponse::Registered);
    assert!(c.checked());
    assert_eq!(c.send_event(&InputEvent::Character('a')), EventResponse::Pass);
    assert!(c.checked());
    c.send_event(&click);
    assert!(!c.checked());
}

#[test]
fn global_container_is_always_valid_and_starts_empty() {
    let mut g = GlobalContainer::new();
    assert!(g.is_valid());
    g.mark_invalid();
    assert!(g.is_valid());
    g.mark_valid();
    g.add(&ContainedWidget { id: 1, valid: true });
    g.invalidate_content();
    g.validate_content();
    assert_eq!(g.len(), 0);
    assert!(g.is_valid());
}
