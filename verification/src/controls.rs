//! The state that buttons and check boxes keep between frames.
use vstd::prelude::*;

use crate::events::{EventResponse, InputEvent, MouseButton};

verus! {

/// A left click.
pub open spec fn is_left_press(e: InputEvent) -> bool {
    e == InputEvent::MouseButtonPressed(MouseButton::Left)
}

/// Whether a click is pending after the event `e`, when `pending` tells
/// whether one was pending before.
pub open spec fn click_after(pending: bool, e: InputEvent) -> bool {
    pending || is_left_press(e)
}

/// Whether a click is pending after the events `es`, received in order.
pub open spec fn click_after_all(pending: bool, es: Seq<InputEvent>) -> bool
    decreases es.len(),
{
    if es.len() == 0 {
        pending
    } else {
        click_after(click_after_all(pending, es.drop_last()), es.last())
    }
}

/// Whether a box is checked after the event `e`, when `on` tells whether it
/// was checked before.
pub open spec fn checked_after(on: bool, e: InputEvent) -> bool {
    on != is_left_press(e)
}

/// Whether a button was clicked since it was last built: a click is kept
/// until the next build reports it.
pub struct ClickState {
    pressed: bool,
}

impl ClickState {
    /// Whether a click is waiting to be reported.
    pub closed spec fn pending(&self) -> bool {
        self.pressed
    }

    /// No click pending.
    pub fn new() -> (r: Self)
        ensures
            !r.pending(),
    {
        ClickState { pressed: false }
    }

    /// A left click is recorded and registered; any other event passes.
    pub fn send_event(&mut self, event: &InputEvent) -> (r: EventResponse)
        ensures
            final(self).pending() == click_after(old(self).pending(), *event),
            r == (if is_left_press(*event) {
                EventResponse::Registered
            } else {
                EventResponse::Pass
            }),
            *event == InputEvent::MouseButtonPressed(MouseButton::Left) ==> final(self).pending()
                && r == EventResponse::Registered,
            *event != InputEvent::MouseButtonPressed(MouseButton::Left) ==> final(self).pending()
                == old(self).pending() && r == EventResponse::Pass,
    {
        match event {
            InputEvent::MouseButtonPressed(MouseButton::Left) => {
                self.pressed = true;
                EventResponse::Registered
            },
            _ => EventResponse::Pass,
        }
    }

    /// Reports whether a click happened since the last report, and forgets
    /// it.
    pub fn take_pressed(&mut self) -> (r: bool)
        ensures
            r == old(self).pending(),
            !final(self).pending(),
    {
        let pressed = self.pressed;
        self.pressed = false;
        pressed
    }
}

/// Whether a check box is checked: a left click toggles it.
pub struct CheckState {
    checked: bool,
}

impl CheckState {
    /// Whether the box is checked.
    pub closed spec fn is_on(&self) -> bool {
        self.checked
    }

    /// An unchecked box.
    pub fn new() -> (r: Self)
        ensures
            !r.is_on(),
    {
        CheckState { checked: false }
    }

    /// Whether the box is checked.
    pub fn checked(&self) -> (r: bool)
        ensures
            r == self.is_on(),
    {
        self.checked
    }

    /// A left click toggles the box and is registered; any other event
    /// passes.
    pub fn send_event(&mut self, event: &InputEvent) -> (r: EventResponse)
        ensures
            final(self).is_on() == checked_after(old(self).is_on(), *event),
            r == (if is_left_press(*event) {
                EventResponse::Registered
            } else {
                EventResponse::Pass
            }),
            *event == InputEvent::MouseButtonPressed(MouseButton::Left) ==> final(self).is_on()
                == !old(self).is_on() && r == EventResponse::Registered,
            *event != InputEvent::MouseButtonPressed(MouseButton::Left) ==> final(self).is_on()
                == old(self).is_on() && r == EventResponse::Pass,
    {
        match event {
            InputEvent::MouseButtonPressed(MouseButton::Left) => {
                self.checked = !self.checked;
                EventResponse::Registered
            },
            _ => EventResponse::Pass,
        }
    }
}

/// A click is never lost: once a left click arrives among the events
/// received before the next build, that build reports a click, whatever the
/// other events were.
pub proof fn lemma_click_not_lost(pending: bool, es: Seq<InputEvent>, k: int)
    requires
        0 <= k < es.len(),
        is_left_press(es[k]),
    ensures
        click_after_all(pending, es),
    decreases es.len(),
{
    if k < es.len() - 1 {
        lemma_click_not_lost(pending, es.drop_last(), k);
    }
}

/// Without a left click, nothing becomes pending: events other than a left
/// click leave the button as it was.
pub proof fn lemma_no_click_no_report(pending: bool, es: Seq<InputEvent>)
    requires
        forall|k: int| 0 <= k < es.len() ==> !is_left_press(#[trigger] es[k]),
    ensures
        click_after_all(pending, es) == pending,
    decreases es.len(),
{
    if es.len() > 0 {
        let d = es.drop_last();
        assert forall|k: int| 0 <= k < d.len() implies !is_left_press(#[trigger] d[k]) by {
            assert(d[k] == es[k]);
        }
        lemma_no_click_no_report(pending, d);
        assert(!is_left_press(es[es.len() - 1]));
    }
}

/// Only a press of the left button is a click: a press of any other button,
/// a release, or any other event leaves a pending click as it was, and a
/// left press always leaves one pending.
pub proof fn lemma_only_left_press_clicks(pending: bool, e: InputEvent)
    ensures
        is_left_press(e) <==> e == InputEvent::MouseButtonPressed(MouseButton::Left),
        e != InputEvent::MouseButtonPressed(MouseButton::Left) ==> click_after(pending, e)
            == pending,
        click_after(pending, InputEvent::MouseButtonPressed(MouseButton::Left)),
        click_after(pending, InputEvent::MouseButtonPressed(MouseButton::Middle)) == pending,
        click_after(pending, InputEvent::MouseButtonPressed(MouseButton::Right)) == pending,
{
}

/// A check box changes only on a left press, which flips it: any other
/// event, a release of the left button included, leaves it as it was.
pub proof fn lemma_only_left_press_toggles(on: bool, e: InputEvent)
    ensures
        e != InputEvent::MouseButtonPressed(MouseButton::Left) ==> checked_after(on, e) == on,
        checked_after(on, InputEvent::MouseButtonPressed(MouseButton::Left)) == !on,
        checked_after(
            checked_after(on, InputEvent::MouseButtonPressed(MouseButton::Left)),
            InputEvent::MouseButtonReleased(MouseButton::Left),
        ) == !on,
{
}

/// Two left clicks on a check box bring it back to its state.
pub proof fn lemma_two_clicks_restore(on: bool)
    ensures
        checked_after(
            checked_after(on, InputEvent::MouseButtonPressed(MouseButton::Left)),
            InputEvent::MouseButtonPressed(MouseButton::Left),
        ) == on,
{
}

} // verus!
