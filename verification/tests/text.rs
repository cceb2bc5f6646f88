use pengui::events::{EventResponse, InputEvent, MouseButton};
use pengui::text::{edit_text, send_text_event};

#[test]
fn typing_appends() {
    let mut t = String::from("ab");
    assert_eq!(edit_text(&mut t, 'c'), EventResponse::Registered);
    assert_eq!(t, "abc");
    edit_text(&mut t, 'é');
    assert_eq!(t, "abcé");
}

#[test]
fn backspace_erases_last_character() {
    let mut t = String::from("hé");
    edit_text(&mut t, '\u{8}');
    assert_eq!(t, "h");
    edit_text(&mut t, '\u{8}');
    assert_eq!(t, "");
    assert_eq!(edit_text(&mut t, '\u{8}'), EventResponse::Registered);
    assert_eq!(t, "");
}

#[test]
fn delete_is_ignored() {
    let mut t = String::from("x");
    assert_eq!(edit_text(&mut t, '\u{7f}'), EventResponse::Registered);
    assert_eq!(t, "x");
}

#[test]
fn typing_then_backspace_restores() {
    let mut t = String::from("text");
    edit_text(&mut t, 'z');
    edit_text(&mut t, '\u{8}');
    assert_eq!(t, "text");
}

#[test]
fn text_events() {
    let mut t = String::from("a");
    assert_eq!(
        send_text_event(&mut t, &InputEvent::MouseButtonPressed(MouseButton::Left)),
        (EventResponse::Registered, true)
    );
    assert_eq!(
        send_text_event(&mut t, &InputEvent::Character('b')),
        (EventResponse::Registered, false)
    );
    assert_eq!(t, "ab");
    assert_eq!(
        send_text_event(&mut t, &InputEvent::MouseButtonPressed(MouseButton::Right)),
        (EventResponse::Pass, false)
    );
    assert_eq!(send_text_event(&mut t, &InputEvent::MouseEntered), (EventResponse::Pass, false));
    assert_eq!(t, "ab");
}
