//! Editing of the text held by an editable text widget.
use vstd::prelude::*;

use crate::events::{EventResponse, InputEvent, MouseButton};

verus! {

/// The backspace character: erases the last character.
pub const BACKSPACE: char = '\u{8}';

/// The delete character: ignored by text edition.
pub const DELETE: char = '\u{7f}';

/// `String::push`: appends the character at the end of the string.
#[verifier::external_body]
fn push_char(s: &mut String, c: char)
    ensures
        final(s)@ == old(s)@.push(c),
{
    s.push(c);
}

/// `String::pop`: removes the last character of the string and returns it,
/// or returns `None` and leaves the string alone when it is empty.
#[verifier::external_body]
fn pop_char(s: &mut String) -> (r: Option<char>)
    ensures
        old(s)@.len() == 0 ==> r is None && final(s)@ == old(s)@,
        old(s)@.len() > 0 ==> r == Some(old(s)@.last()) && final(s)@ == old(s)@.drop_last(),
{
    s.pop()
}

/// The text after the character `c` was typed: a backspace erases the last
/// character (if any), a delete is ignored, any other character is appended.
pub open spec fn edited(s: Seq<char>, c: char) -> Seq<char> {
    if c == BACKSPACE {
        if s.len() > 0 {
            s.drop_last()
        } else {
            s
        }
    } else if c == DELETE {
        s
    } else {
        s.push(c)
    }
}

/// Applies a typed character to the text of an editable text widget. The
/// widget always registers a character event.
pub fn edit_text(text: &mut String, c: char) -> (r: EventResponse)
    ensures
        final(text)@ == edited(old(text)@, c),
        r == EventResponse::Registered,
        c != BACKSPACE && c != DELETE ==> final(text)@ == old(text)@.push(c),
        c == DELETE ==> final(text)@ == old(text)@,
        c == BACKSPACE && old(text)@.len() > 0 ==> final(text)@ == old(text)@.drop_last(),
        c == BACKSPACE && old(text)@.len() == 0 ==> final(text)@ == old(text)@,
{
    if c == BACKSPACE {
        pop_char(text);
    } else if c != DELETE {
        push_char(text, c);
    }
    EventResponse::Registered
}

/// What an editable text does with an event: a left click asks for the
/// focus and is registered, a typed character edits the text and is
/// registered, any other event passes. The second component tells whether
/// the focus is asked for.
pub fn send_text_event(text: &mut String, event: &InputEvent) -> (r: (EventResponse, bool))
    ensures
        final(text)@ == (match *event {
            InputEvent::Character(c) => edited(old(text)@, c),
            _ => old(text)@,
        }),
        r.0 == (match *event {
            InputEvent::MouseButtonPressed(MouseButton::Left) => EventResponse::Registered,
            InputEvent::Character(_) => EventResponse::Registered,
            _ => EventResponse::Pass,
        }),
        r.1 == (*event == InputEvent::MouseButtonPressed(MouseButton::Left)),
        forall|c: char|
            *event == InputEvent::Character(c) && c != BACKSPACE && c != DELETE ==> final(text)@
                == old(text)@.push(c),
{
    match event {
        InputEvent::MouseButtonPressed(MouseButton::Left) => (EventResponse::Registered, true),
        InputEvent::Character(c) => (edit_text(text, *c), false),
        _ => (EventResponse::Pass, false),
    }
}

/// Typing a character other than backspace and delete appends exactly that
/// character, whatever it is; delete leaves the text alone; backspace
/// removes the last character and only it.
pub proof fn lemma_typing_appends_the_character(s: Seq<char>, c: char)
    ensures
        c != BACKSPACE && c != DELETE ==> edited(s, c) == s.push(c),
        c != BACKSPACE && c != DELETE ==> edited(s, c).len() == s.len() + 1 && edited(s, c)[s.len() as int] == c
            && edited(s, c).subrange(0, s.len() as int) == s,
        edited(s, DELETE) == s,
        s.len() > 0 ==> edited(s, BACKSPACE) == s.subrange(0, s.len() - 1),
        s.len() == 0 ==> edited(s, BACKSPACE) == s,
{
    if c != BACKSPACE && c != DELETE {
        assert(s.push(c).subrange(0, s.len() as int) =~= s);
    }
    if s.len() > 0 {
        assert(s.drop_last() =~= s.subrange(0, s.len() - 1));
    }
}

/// Typing a character and then a backspace gives back the text one started
/// from (for any character other than backspace and delete).
pub proof fn lemma_backspace_undoes_typing(s: Seq<char>, c: char)
    requires
        c != BACKSPACE,
        c != DELETE,
    ensures
        edited(edited(s, c), BACKSPACE) == s,
{
    assert(s.push(c).drop_last() =~= s);
}

} // verus!
