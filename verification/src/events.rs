//! Input devices and the discrete part of the input state.
use vstd::prelude::*;

verus! {

/// Describe a button of a mouse.
/// Only the three most important are implemented.
#[derive(Copy, Clone, Debug, PartialEq, Eq, Hash, Structural)]
pub enum MouseButton {
    Left,
    Middle,
    Right,
}

/// Describe a key on a keyboard.
/// Not all keys are implemented.
#[derive(Copy, Clone, Debug, PartialEq, Eq, Hash, Structural)]
pub enum Key {
    Key1,
    Key2,
    Key3,
    Key4,
    Key5,
    Key6,
    Key7,
    Key8,
    Key9,
    Key0,
    A,
    B,
    C,
    D,
    E,
    F,
    G,
    H,
    I,
    J,
    K,
    L,
    M,
    N,
    O,
    P,
    Q,
    R,
    S,
    T,
    U,
    V,
    W,
    X,
    Y,
    Z,
    Backspace,
    Delete,
    Escape,
    Return,
    Space,
    Tab,
    LShift,
    RShift,
    LCtrl,
    RCtrl,
    LAlt,
    RAlt,
    Numpad1,
    Numpad2,
    Numpad3,
    Numpad4,
    Numpad5,
    Numpad6,
    Numpad7,
    Numpad8,
    Numpad9,
    Numpad0,
    NumpadAdd,
    NumpadDivide,
    NumpadMultiply,
    NumpadSubtract,
    NumpadDecimal,
    NumpadComma,
    NumpadEnter,
    NumpadEquals,
    F1,
    F2,
    F3,
    F4,
    F5,
    F6,
    F7,
    F8,
    F9,
    F10,
    F11,
    F12,
    ArrowLeft,
    ArrowRight,
    ArrowUp,
    ArrowDown,
}

/// The response a widget can give after receiving an event.
/// This will determine if the event will continue to be propagated or not.
///
/// If the response is
/// - `Registered`, the event won't be propagated to the widgets behind
/// - `PassivelyRegistered`, it indicates the widget did something
///   with the event but allows it to be propagated further
/// - `Pass`, the widget did nothing with the event and it will be propagated
///   to the widgets behind
#[derive(Copy, Clone, Debug, PartialEq, Eq, Structural)]
pub enum EventResponse {
    Registered,
    PassivelyRegistered,
    Pass,
}

/// The events that carry no coordinate: the ones that change which buttons
/// and keys are held and whether the mouse is inside the window, and the
/// others (text and focus), which change none of that.
#[derive(Copy, Clone, Debug, PartialEq, Eq, Structural)]
pub enum InputEvent {
    MouseButtonPressed(MouseButton),
    MouseButtonReleased(MouseButton),
    MouseEntered,
    MouseLeft,
    KeyPressed(Key),
    KeyReleased(Key),
    Character(char),
    FocusForward,
    FocusBackward,
}

/// The buttons and keys currently held, and whether the mouse is inside the
/// window.
pub struct PressedState {
    mouse_buttons_pressed: Vec<MouseButton>,
    keys_pressed: Vec<Key>,
    mouse_inside_window: bool,
}

impl PressedState {
    #[verifier::type_invariant]
    spec fn held_once(self) -> bool {
        &&& self.mouse_buttons_pressed@.no_duplicates()
        &&& self.keys_pressed@.no_duplicates()
    }

    /// The mouse buttons held.
    pub closed spec fn buttons(&self) -> Set<MouseButton> {
        Set::new(|b: MouseButton| self.mouse_buttons_pressed@.contains(b))
    }

    /// The keys held.
    pub closed spec fn keys(&self) -> Set<Key> {
        Set::new(|k: Key| self.keys_pressed@.contains(k))
    }

    /// Whether the mouse is inside the window.
    pub closed spec fn inside(&self) -> bool {
        self.mouse_inside_window
    }

    /// The default state: nothing held, and the mouse outside the window.
    pub fn new() -> (r: Self)
        ensures
            r.buttons() == Set::<MouseButton>::empty(),
            r.keys() == Set::<Key>::empty(),
            !r.inside(),
    {
        let r = PressedState {
            mouse_buttons_pressed: Vec::new(),
            keys_pressed: Vec::new(),
            mouse_inside_window: false,
        };
        assert(r.buttons() =~= Set::<MouseButton>::empty());
        assert(r.keys() =~= Set::<Key>::empty());
        r
    }

    /// Whether the button `b` is held.
    pub fn is_button_pressed(&self, b: MouseButton) -> (r: bool)
        ensures
            r == self.buttons().contains(b),
    {
        find_held(&self.mouse_buttons_pressed, b).is_some()
    }

    /// Whether the key `k` is held.
    pub fn is_key_pressed(&self, k: Key) -> (r: bool)
        ensures
            r == self.keys().contains(k),
    {
        find_held(&self.keys_pressed, k).is_some()
    }

    /// Whether the mouse is inside the window.
    pub fn is_mouse_inside(&self) -> (r: bool)
        ensures
            r == self.inside(),
    {
        self.mouse_inside_window
    }

    /// Modifies the state according to an event: a press adds the button or
    /// key to those held, a release removes it, entering and leaving set
    /// whether the mouse is inside; the other events change nothing.
    pub fn event(&mut self, event: &InputEvent)
        ensures
            final(self).buttons() == (match *event {
                InputEvent::MouseButtonPressed(b) => old(self).buttons().insert(b),
                InputEvent::MouseButtonReleased(b) => old(self).buttons().remove(b),
                _ => old(self).buttons(),
            }),
            final(self).keys() == (match *event {
                InputEvent::KeyPressed(k) => old(self).keys().insert(k),
                InputEvent::KeyReleased(k) => old(self).keys().remove(k),
                _ => old(self).keys(),
            }),
            final(self).inside() == (match *event {
                InputEvent::MouseEntered => true,
                InputEvent::MouseLeft => false,
                _ => old(self).inside(),
            }),
    {
        proof {
            use_type_invariant(&*self);
        }
        match event {
            InputEvent::MouseButtonPressed(b) => {
                let mut v: Vec<MouseButton> = Vec::new();
                std::mem::swap(&mut v, &mut self.mouse_buttons_pressed);
                hold(&mut v, *b);
                self.mouse_buttons_pressed = v;
            },
            InputEvent::MouseButtonReleased(b) => {
                let mut v: Vec<MouseButton> = Vec::new();
                std::mem::swap(&mut v, &mut self.mouse_buttons_pressed);
                release(&mut v, *b);
                self.mouse_buttons_pressed = v;
            },
            InputEvent::MouseEntered => {
                self.mouse_inside_window = true;
            },
            InputEvent::MouseLeft => {
                self.mouse_inside_window = false;
            },
            InputEvent::KeyPressed(k) => {
                let mut v: Vec<Key> = Vec::new();
                std::mem::swap(&mut v, &mut self.keys_pressed);
                hold(&mut v, *k);
                self.keys_pressed = v;
            },
            InputEvent::KeyReleased(k) => {
                let mut v: Vec<Key> = Vec::new();
                std::mem::swap(&mut v, &mut self.keys_pressed);
                release(&mut v, *k);
                self.keys_pressed = v;
            },
            _ => {},
        }
        assert(self.buttons() =~= (match *event {
            InputEvent::MouseButtonPressed(b) => old(self).buttons().insert(b),
            InputEvent::MouseButtonReleased(b) => old(self).buttons().remove(b),
            _ => old(self).buttons(),
        }));
        assert(self.keys() =~= (match *event {
            InputEvent::KeyPressed(k) => old(self).keys().insert(k),
            InputEvent::KeyReleased(k) => old(self).keys().remove(k),
            _ => old(self).keys(),
        }));
    }
}

impl Default for PressedState {
    /// Default state: nothing held, and the mouse outside the window.
    fn default() -> (r: Self)
        ensures
            r.buttons() == Set::<MouseButton>::empty(),
            r.keys() == Set::<Key>::empty(),
            !r.inside(),
    {
        Self::new()
    }
}

/// Something that can be held: a button or a key, compared by value.
trait Holdable: Copy + Sized {
    /// Whether `self` and `other` are the same value.
    fn same(&self, other: &Self) -> (r: bool)
        ensures
            r == (*self == *other),
    ;
}

impl Holdable for MouseButton {
    fn same(&self, other: &Self) -> (r: bool) {
        *self == *other
    }
}

impl Holdable for Key {
    fn same(&self, other: &Self) -> (r: bool) {
        *self == *other
    }
}

/// The position of `x` in `v`, if it is there.
fn find_held<T: Holdable>(v: &Vec<T>, x: T) -> (r: Option<usize>)
    ensures
        r is Some <==> v@.contains(x),
        r matches Some(i) ==> i < v@.len() && v@[i as int] == x,
{
    let n = v.len();
    let mut i: usize = 0;
    while i < n
        invariant
            n == v@.len(),
            i <= n,
            forall|j: int| 0 <= j < i ==> v@[j] != x,
        decreases n - i,
    {
        if v[i].same(&x) {
            return Some(i);
        }
        i += 1;
    }
    None
}

/// Adds `x` to the values held, once.
fn hold<T: Holdable>(v: &mut Vec<T>, x: T)
    requires
        old(v)@.no_duplicates(),
    ensures
        final(v)@.no_duplicates(),
        forall|y: T| #[trigger] final(v)@.contains(y) == (old(v)@.contains(y) || y == x),
{
    match find_held(v, x) {
        Some(_) => {},
        None => {
            let ghost before = v@;
            v.push(x);
            assert forall|y: T| #[trigger] v@.contains(y) == (before.contains(y) || y == x) by {
                if y == x {
                    assert(v@[before.len() as int] == y);
                }
                if before.contains(y) {
                    let i = choose|i: int| 0 <= i < before.len() && before[i] == y;
                    assert(v@[i] == y);
                }
            }
        },
    }
}

/// Removes `x` from the values held.
fn release<T: Holdable>(v: &mut Vec<T>, x: T)
    requires
        old(v)@.no_duplicates(),
    ensures
        final(v)@.no_duplicates(),
        forall|y: T| #[trigger] final(v)@.contains(y) == (old(v)@.contains(y) && y != x),
{
    match find_held(v, x) {
        None => {},
        Some(i) => {
            let ghost before = v@;
            v.remove(i);
            let ghost after = v@;
            assert forall|y: T| #[trigger] after.contains(y) == (before.contains(y) && y != x) by {
                if after.contains(y) {
                    let j = choose|j: int| 0 <= j < after.len() && after[j] == y;
                    if j < i {
                        assert(before[j] == y);
                    } else {
                        assert(before[j + 1] == y);
                    }
                }
                if before.contains(y) && y != x {
                    let j = choose|j: int| 0 <= j < before.len() && before[j] == y;
                    if j < i {
                        assert(after[j] == y);
                    } else {
                        assert(after[j - 1] == y);
                    }
                }
            }
        },
    }
}

/// Releasing a button that was not held before being pressed gives back the
/// buttons held before the press; the same holds of keys.
pub proof fn lemma_release_undoes_press(
    buttons: Set<MouseButton>,
    b: MouseButton,
    keys: Set<Key>,
    k: Key,
)
    requires
        !buttons.contains(b),
        !keys.contains(k),
    ensures
        buttons.insert(b).remove(b) == buttons,
        keys.insert(k).remove(k) == keys,
{
    assert(buttons.insert(b).remove(b) =~= buttons);
    assert(keys.insert(k).remove(k) =~= keys);
}

/// Pressing a button or a key that is already held changes nothing.
pub proof fn lemma_press_idempotent(buttons: Set<MouseButton>, b: MouseButton, keys: Set<Key>, k: Key)
    ensures
        buttons.insert(b).insert(b) == buttons.insert(b),
        keys.insert(k).insert(k) == keys.insert(k),
{
    assert(buttons.insert(b).insert(b) =~= buttons.insert(b));
    assert(keys.insert(k).insert(k) =~= keys.insert(k));
}

} // verus!
